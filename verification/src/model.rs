//! What every transcript is normalized to: who speaks, what is said, and what it cost.

use vstd::prelude::*;

use crate::json::{Json, JsonValue};
use crate::text;

verus! {

/// What an optional value stands for.
pub open spec fn viewed<T: View>(value: Option<T>) -> Option<T::V> {
    match value {
        Some(inner) => Some(inner@),
        None => None,
    }
}

/// Names one session of a harness.
#[derive(Debug, Clone, PartialEq)]
pub struct SessionId(pub String);

/// Names one message of a session.
#[derive(Debug, Clone, PartialEq)]
pub struct MessageId(pub String);

/// Names one tool call, in the call and in its result.
#[derive(Debug, Clone, PartialEq)]
pub struct ToolCallId(pub String);

impl View for SessionId {
    type V = Seq<char>;

    open spec fn view(&self) -> Seq<char> {
        self.0@
    }
}

impl View for MessageId {
    type V = Seq<char>;

    open spec fn view(&self) -> Seq<char> {
        self.0@
    }
}

impl View for ToolCallId {
    type V = Seq<char>;

    open spec fn view(&self) -> Seq<char> {
        self.0@
    }
}

impl From<String> for SessionId {
    fn from(text: String) -> (r: Self) {
        SessionId(text)
    }
}

impl vstd::std_specs::convert::FromSpecImpl<String> for SessionId {
    open spec fn obeys_from_spec() -> bool {
        true
    }

    open spec fn from_spec(text: String) -> Self {
        SessionId(text)
    }
}

impl From<String> for MessageId {
    fn from(text: String) -> (r: Self) {
        MessageId(text)
    }
}

impl vstd::std_specs::convert::FromSpecImpl<String> for MessageId {
    open spec fn obeys_from_spec() -> bool {
        true
    }

    open spec fn from_spec(text: String) -> Self {
        MessageId(text)
    }
}

impl From<String> for ToolCallId {
    fn from(text: String) -> (r: Self) {
        ToolCallId(text)
    }
}

impl vstd::std_specs::convert::FromSpecImpl<String> for ToolCallId {
    open spec fn obeys_from_spec() -> bool {
        true
    }

    open spec fn from_spec(text: String) -> Self {
        ToolCallId(text)
    }
}

/// Who a message is from.
#[derive(Debug, Clone, PartialEq)]
pub enum Role {
    User,
    Assistant,
    System,
    Tool,
    /// Nobody of the conversation: the harness's own name for the line.
    Other(String),
}

/// What a [`Role`] stands for.
pub enum RoleView {
    User,
    Assistant,
    System,
    Tool,
    Other(Seq<char>),
}

impl View for Role {
    type V = RoleView;

    open spec fn view(&self) -> RoleView {
        match *self {
            Role::User => RoleView::User,
            Role::Assistant => RoleView::Assistant,
            Role::System => RoleView::System,
            Role::Tool => RoleView::Tool,
            Role::Other(name) => RoleView::Other(name@),
        }
    }
}

/// Why a model stopped, or a turn ended.
#[derive(Debug, Clone, PartialEq)]
pub enum StopReason {
    EndTurn,
    MaxTokens,
    ToolUse,
    StopSequence,
    Refusal,
    /// The user interrupted the turn.
    Aborted,
    /// The turn failed.
    Error,
    /// A reason with no name here, as the harness wrote it.
    Other(String),
}

/// What a [`StopReason`] stands for.
pub enum StopReasonView {
    EndTurn,
    MaxTokens,
    ToolUse,
    StopSequence,
    Refusal,
    Aborted,
    Error,
    Other(Seq<char>),
}

impl View for StopReason {
    type V = StopReasonView;

    open spec fn view(&self) -> StopReasonView {
        match *self {
            StopReason::EndTurn => StopReasonView::EndTurn,
            StopReason::MaxTokens => StopReasonView::MaxTokens,
            StopReason::ToolUse => StopReasonView::ToolUse,
            StopReason::StopSequence => StopReasonView::StopSequence,
            StopReason::Refusal => StopReasonView::Refusal,
            StopReason::Aborted => StopReasonView::Aborted,
            StopReason::Error => StopReasonView::Error,
            StopReason::Other(raw) => StopReasonView::Other(raw@),
        }
    }
}

/// The tokens one model call used, as far as the harness tells.
#[derive(Debug, Clone, Copy, PartialEq)]
pub struct Usage {
    /// Fresh input, without what was read from or written to a cache.
    pub input: Option<u64>,
    pub output: Option<u64>,
    pub cache_read: Option<u64>,
    pub cache_write: Option<u64>,
}

/// A tool call of the model.
#[derive(Debug, Clone, PartialEq)]
pub struct ToolUse {
    pub id: ToolCallId,
    pub name: String,
    pub input: JsonValue,
}

/// What came back from a tool call.
#[derive(Debug, Clone, PartialEq)]
pub struct ToolResult {
    pub call: ToolCallId,
    pub output: JsonValue,
    pub error: bool,
}

/// One piece of a message.
#[derive(Debug, Clone, PartialEq)]
pub enum Content {
    Text(String),
    /// The summary that replaced an earlier part of the conversation.
    Summary(String),
    /// Why a call or a turn failed.
    Error(String),
    /// The model reasoned here; of the reasoning itself nothing is kept.
    ReasoningSummary { tokens: Option<u64> },
    ToolUse(ToolUse),
    ToolResult(ToolResult),
    /// Anything else, as the harness wrote it.
    Other(JsonValue),
}

/// What a [`Content`] stands for.
pub enum ContentView {
    Text(Seq<char>),
    Summary(Seq<char>),
    Error(Seq<char>),
    ReasoningSummary { tokens: Option<u64> },
    ToolUse { id: Seq<char>, name: Seq<char>, input: Json },
    ToolResult { call: Seq<char>, output: Json, error: bool },
    Other(Json),
}

impl View for Content {
    type V = ContentView;

    open spec fn view(&self) -> ContentView {
        match *self {
            Content::Text(text) => ContentView::Text(text@),
            Content::Summary(text) => ContentView::Summary(text@),
            Content::Error(text) => ContentView::Error(text@),
            Content::ReasoningSummary { tokens } => ContentView::ReasoningSummary { tokens },
            Content::ToolUse(call) => ContentView::ToolUse {
                id: call.id@,
                name: call.name@,
                input: call.input@,
            },
            Content::ToolResult(result) => ContentView::ToolResult {
                call: result.call@,
                output: result.output@,
                error: result.error,
            },
            Content::Other(value) => ContentView::Other(value@),
        }
    }
}

/// What the pieces of a message stand for.
pub open spec fn contents(pieces: Seq<Content>) -> Seq<ContentView> {
    pieces.map_values(|piece: Content| piece@)
}

/// No piece, or the one piece given.
pub open spec fn at_most_one(piece: Option<ContentView>) -> Seq<ContentView> {
    match piece {
        Some(piece) => seq![piece],
        None => Seq::empty(),
    }
}

/// No piece, or the one piece given.
pub fn pieces_of(piece: Option<Content>) -> (r: Vec<Content>)
    ensures
        contents(r@) == at_most_one(viewed(piece)),
{
    let mut out: Vec<Content> = Vec::new();
    if let Some(piece) = piece {
        out.push(piece);
    }
    assert(contents(out@) =~= at_most_one(viewed(piece)));
    out
}

/// Whether an optional text is there and is `expected`.
pub fn is_text(text: Option<&str>, expected: &str) -> (r: bool)
    ensures
        r == (viewed(text) == Some(expected@)),
{
    match text {
        Some(text) => text::same(text, expected),
        None => false,
    }
}

/// An optional text as an owned one.
pub fn owned(text: Option<&str>) -> (r: Option<String>)
    ensures
        viewed(r) == viewed(text),
{
    match text {
        Some(text) => Some(text.to_owned()),
        None => None,
    }
}

/// What is said, by whom and why it stopped, is viewed with all that it holds.
pub proof fn law_contents_are_viewed(
    text: String,
    tokens: Option<u64>,
    call: ToolUse,
    result: ToolResult,
    value: JsonValue,
)
    ensures
        Content::Text(text)@ == ContentView::Text(text@),
        Content::Summary(text)@ == ContentView::Summary(text@),
        Content::Error(text)@ == ContentView::Error(text@),
        (Content::ReasoningSummary { tokens })@ == (ContentView::ReasoningSummary { tokens }),
        Content::ToolUse(call)@ == (ContentView::ToolUse {
            id: call.id.0@,
            name: call.name@,
            input: call.input@,
        }),
        Content::ToolResult(result)@ == (ContentView::ToolResult {
            call: result.call.0@,
            output: result.output@,
            error: result.error,
        }),
        Content::Other(value)@ == ContentView::Other(value@),
        Role::User@ == RoleView::User,
        Role::Assistant@ == RoleView::Assistant,
        Role::System@ == RoleView::System,
        Role::Tool@ == RoleView::Tool,
        Role::Other(text)@ == RoleView::Other(text@),
        StopReason::EndTurn@ == StopReasonView::EndTurn,
        StopReason::MaxTokens@ == StopReasonView::MaxTokens,
        StopReason::ToolUse@ == StopReasonView::ToolUse,
        StopReason::StopSequence@ == StopReasonView::StopSequence,
        StopReason::Refusal@ == StopReasonView::Refusal,
        StopReason::Aborted@ == StopReasonView::Aborted,
        StopReason::Error@ == StopReasonView::Error,
        StopReason::Other(text)@ == StopReasonView::Other(text@),
{
}

/// The pieces of a message are viewed one by one, in order.
pub proof fn law_pieces_are_viewed(pieces: Seq<Content>)
    ensures
        contents(pieces).len() == pieces.len(),
        forall|i: int| 0 <= i < pieces.len() ==> #[trigger] contents(pieces)[i] == pieces[i]@,
{
}

} // verus!
