//! One line of a `ccode` transcript.

use vstd::prelude::*;
use vstd::string::*;

use crate::ccode::typed::{typed, typed_text};
use crate::clock::{parse_rfc3339, rfc3339, Timestamp};
use crate::json::{
    at, bool_of, count_sum, has_count, items_view, member, string_of, text_at, u64_of, Json,
    JsonObject, JsonValue,
};
use crate::model::{
    at_most_one, contents, is_text, owned, pieces_of, viewed, Content, ContentView, MessageId, Role,
    RoleView, SessionId, StopReason, StopReasonView, ToolCallId, ToolResult, ToolUse, Usage,
};
use crate::text;
use crate::text::{begins, trimmed_start};

verus! {

/// One line of a `ccode` transcript.
///
/// Loosely typed fields stay [`JsonValue`]: a line whose shape a newer `ccode` changed must
/// still be read.
#[derive(Debug, Clone)]
pub struct CcodeMessage {
    /// The line's `type`.
    pub kind: String,
    pub subtype: Option<String>,
    pub uuid: Option<String>,
    pub timestamp: Option<String>,
    pub message: Option<JsonValue>,
    pub content: Option<JsonValue>,
    pub cwd: Option<String>,
    pub git_branch: Option<String>,
    pub ai_title: Option<String>,
    pub custom_title: Option<String>,
    /// The title of a legacy `summary` line.
    pub summary: Option<JsonValue>,
    pub parent_uuid: Option<String>,
    /// The predecessor of a line written with a null `parentUuid`: a `compact_boundary`.
    pub logical_parent_uuid: Option<String>,
    pub session_id: Option<String>,
    /// `{sessionId, messageUuid}` on every line `/branch` (`--fork-session`) copied.
    pub forked_from: Option<JsonValue>,
    pub attachment: Option<JsonValue>,
    /// Who submitted a user line: absent or `{"kind": "human"}` for the user.
    pub origin: Option<JsonValue>,
    pub is_meta: Option<bool>,
    pub is_compact_summary: Option<bool>,
    pub is_api_error_message: Option<bool>,
    /// The error class of an API error line (`rate_limit`, `unknown`, ...).
    pub error: Option<JsonValue>,
}

/// What a [`CcodeMessage`] stands for.
pub struct CcodeLine {
    pub kind: Seq<char>,
    pub subtype: Option<Seq<char>>,
    pub uuid: Option<Seq<char>>,
    pub timestamp: Option<Seq<char>>,
    pub message: Option<Json>,
    pub content: Option<Json>,
    pub cwd: Option<Seq<char>>,
    pub git_branch: Option<Seq<char>>,
    pub ai_title: Option<Seq<char>>,
    pub custom_title: Option<Seq<char>>,
    pub summary: Option<Json>,
    pub parent_uuid: Option<Seq<char>>,
    pub logical_parent_uuid: Option<Seq<char>>,
    pub session_id: Option<Seq<char>>,
    pub forked_from: Option<Json>,
    pub attachment: Option<Json>,
    pub origin: Option<Json>,
    pub is_meta: Option<bool>,
    pub is_compact_summary: Option<bool>,
    pub is_api_error_message: Option<bool>,
    pub error: Option<Json>,
}

impl View for CcodeMessage {
    type V = CcodeLine;

    open spec fn view(&self) -> CcodeLine {
        CcodeLine {
            kind: self.kind@,
            subtype: viewed(self.subtype),
            uuid: viewed(self.uuid),
            timestamp: viewed(self.timestamp),
            message: viewed(self.message),
            content: viewed(self.content),
            cwd: viewed(self.cwd),
            git_branch: viewed(self.git_branch),
            ai_title: viewed(self.ai_title),
            custom_title: viewed(self.custom_title),
            summary: viewed(self.summary),
            parent_uuid: viewed(self.parent_uuid),
            logical_parent_uuid: viewed(self.logical_parent_uuid),
            session_id: viewed(self.session_id),
            forked_from: viewed(self.forked_from),
            attachment: viewed(self.attachment),
            origin: viewed(self.origin),
            is_meta: self.is_meta,
            is_compact_summary: self.is_compact_summary,
            is_api_error_message: self.is_api_error_message,
            error: viewed(self.error),
        }
    }
}

/// What a `stop_reason` of the API stands for.
pub open spec fn stop_reason_of(raw: Seq<char>) -> StopReasonView {
    if raw == "end_turn"@ {
        StopReasonView::EndTurn
    } else if raw == "max_tokens"@ {
        StopReasonView::MaxTokens
    } else if raw == "tool_use"@ {
        StopReasonView::ToolUse
    } else if raw == "stop_sequence"@ {
        StopReasonView::StopSequence
    } else if raw == "refusal"@ {
        StopReasonView::Refusal
    } else {
        StopReasonView::Other(raw)
    }
}

/// Whether an `origin` names the user: there is none, it is null, or its `kind` is `human`.
pub open spec fn is_human(origin: Option<Json>) -> bool {
    match origin {
        Some(origin) => origin is Null || string_of(at(origin, "kind"@)) == Some("human"@),
        None => true,
    }
}

/// The texts of the blocks that have one, in order.
pub open spec fn block_texts(blocks: Seq<Json>) -> Seq<Seq<char>>
    decreases blocks.len(),
{
    if blocks.len() == 0 {
        Seq::empty()
    } else {
        let before = block_texts(blocks.drop_last());
        match string_of(at(blocks.last(), "text"@)) {
            Some(text) => before.push(text),
            None => before,
        }
    }
}

/// Texts one after the other, a line break between any two.
pub open spec fn lines_of(texts: Seq<Seq<char>>) -> Seq<char>
    decreases texts.len(),
{
    if texts.len() == 0 {
        Seq::empty()
    } else if texts.len() == 1 {
        texts[0]
    } else {
        lines_of(texts.drop_last()) + "\n"@ + texts.last()
    }
}

/// A text, or the texts of every block that has one, joined; none where there is no text.
pub open spec fn joined(raw: Json) -> Option<Seq<char>> {
    match raw {
        Json::Str(text) => Some(text),
        Json::Array(blocks) => if block_texts(blocks).len() > 0 {
            Some(lines_of(block_texts(blocks)))
        } else {
            None
        },
        _ => None,
    }
}

/// What is kept of pasted media: what it was, not its bytes.
pub open spec fn media(kind: Seq<char>, source: Json) -> Json {
    Json::Object(
        Map::empty().insert("type"@, Json::Str(kind)).insert(
            "source"@,
            Json::Object(
                Map::empty().insert("type"@, at(source, "type"@)).insert(
                    "media_type"@,
                    at(source, "media_type"@),
                ),
            ),
        ),
    )
}

/// What one block of a message's content stands for.
pub open spec fn block_content(value: Json) -> ContentView {
    match string_of(at(value, "type"@)) {
        Some(kind) => if kind == "text"@ {
            ContentView::Text(text_at(value, "text"@))
        } else if kind == "thinking"@ || kind == "redacted_thinking"@ {
            ContentView::ReasoningSummary { tokens: None }
        } else if kind == "tool_use"@ {
            ContentView::ToolUse {
                id: text_at(value, "id"@),
                name: text_at(value, "name"@),
                input: at(value, "input"@),
            }
        } else if kind == "tool_result"@ {
            ContentView::ToolResult {
                call: text_at(value, "tool_use_id"@),
                output: at(value, "content"@),
                error: bool_of(at(value, "is_error"@)) == Some(true),
            }
        } else if kind == "image"@ || kind == "document"@ {
            ContentView::Other(media(kind, at(value, "source"@)))
        } else {
            ContentView::Other(value)
        },
        None => ContentView::Other(value),
    }
}

/// Whether a queued command is one the user typed: it is not `isMeta`, its `commandMode` is
/// `prompt`, absent or null, and its origin is human.
pub open spec fn is_queued_by_user(queued: Json) -> bool {
    &&& bool_of(at(queued, "isMeta"@)) != Some(true)
    &&& {
        ||| at(queued, "commandMode"@) is Null
        ||| string_of(at(queued, "commandMode"@)) == Some("prompt"@)
    }
    &&& is_human(member(queued, "origin"@))
}

/// Whether a text begins, after white space, with what the harness writes into the user's side of
/// the conversation itself: command output, background task notifications, the local-command
/// caveat, an interrupt.
pub open spec fn is_injected_text(text: Seq<char>) -> bool {
    let shown = trimmed_start(text);
    ||| begins(shown, "<local-command-stdout>"@)
    ||| begins(shown, "<local-command-stderr>"@)
    ||| begins(shown, "<bash-stdout>"@)
    ||| begins(shown, "<bash-stderr>"@)
    ||| begins(shown, "<local-command-caveat>"@)
    ||| begins(shown, "<task-notification>"@)
    ||| begins(shown, "<tick>"@)
    ||| begins(shown, "[Request interrupted by user"@)
}

impl CcodeLine {
    /// The line's raw content: `message.content`, else the top-level `content` (system lines).
    pub open spec fn raw_content(self) -> Option<Json> {
        match self.message {
            Some(message) => match member(message, "content"@) {
                Some(content) => Some(content),
                None => self.content,
            },
            None => self.content,
        }
    }

    /// The line's role as written: `message.role`, else its `type`.
    pub open spec fn raw_role(self) -> Seq<char> {
        match self.message {
            Some(message) => match string_of(at(message, "role"@)) {
                Some(role) => role,
                None => self.kind,
            },
            None => self.kind,
        }
    }

    /// The text a line opens with.
    pub open spec fn first_text(self) -> Option<Seq<char>> {
        match self.raw_content() {
            Some(Json::Str(text)) => Some(text),
            Some(Json::Array(blocks)) => if blocks.len() > 0 {
                string_of(at(blocks[0], "text"@))
            } else {
                None
            },
            _ => None,
        }
    }

    /// Whether the harness wrote the line for a failed API call.
    pub open spec fn is_api_error(self) -> bool {
        self.is_api_error_message == Some(true)
    }

    /// Whether the harness wrote this assistant line itself (an API error, a canned reply): no
    /// model produced it.
    pub open spec fn is_synthetic(self) -> bool {
        ||| self.is_api_error()
        ||| (self.message matches Some(message) && string_of(at(message, "model"@)) == Some(
            "<synthetic>"@,
        ))
    }

    /// A prompt delivered while the agent was busy: the user's, or a background task's
    /// notification.
    pub open spec fn queued_command(self) -> Option<Json> {
        match self.attachment {
            Some(attachment) => if string_of(at(attachment, "type"@)) == Some("queued_command"@) {
                Some(attachment)
            } else {
                None
            },
            None => None,
        }
    }

    /// Whether the harness wrote a user-role line itself rather than the user typing it.
    pub open spec fn is_injected(self) -> bool {
        ||| self.is_meta == Some(true)
        ||| !is_human(self.origin)
        ||| (self.first_text() matches Some(text) && is_injected_text(text))
    }

    /// Whether the line is a `local_command` system line recording the slash command the user
    /// typed (as opposed to its output, written as another `local_command` line).
    pub open spec fn is_typed_local_command(self) -> bool {
        &&& self.kind == "system"@
        &&& self.subtype == Some("local_command"@)
        &&& (self.first_text() matches Some(text) && begins(trimmed_start(text), "<command-"@))
    }

    /// Thinking tokens the call reported (`usage.output_tokens_details.thinking_tokens`).
    pub open spec fn thinking_tokens(self) -> Option<u64> {
        match self.message {
            Some(message) => u64_of(
                at(
                    at(at(message, "usage"@), "output_tokens_details"@),
                    "thinking_tokens"@,
                ),
            ),
            None => None,
        }
    }

    /// Who the line is from.
    pub open spec fn role(self) -> RoleView {
        if self.kind == "attachment"@ {
            match self.queued_command() {
                Some(queued) => if is_queued_by_user(queued) {
                    RoleView::User
                } else {
                    RoleView::System
                },
                None => RoleView::Other(self.kind),
            }
        } else if self.is_compact_summary == Some(true) {
            RoleView::System
        } else if self.is_typed_local_command() {
            RoleView::User
        } else if self.raw_role() == "user"@ {
            if self.is_injected() {
                RoleView::System
            } else {
                RoleView::User
            }
        } else if self.raw_role() == "assistant"@ {
            RoleView::Assistant
        } else if self.raw_role() == "system"@ {
            RoleView::System
        } else if self.raw_role() == "tool"@ {
            RoleView::Tool
        } else {
            RoleView::Other(self.raw_role())
        }
    }
}

/// A text as a piece of content: what the user typed, or the text as it is.
pub open spec fn text_piece(text: Seq<char>, user_typed: bool) -> Option<ContentView> {
    if user_typed {
        match typed(text) {
            Some(line) => Some(ContentView::Text(line)),
            None => None,
        }
    } else {
        Some(ContentView::Text(text))
    }
}

/// What one block of a line's content comes to.
pub open spec fn block_piece(block: Json, user_typed: bool) -> Option<ContentView> {
    if string_of(at(block, "type"@)) == Some("text"@) {
        text_piece(text_at(block, "text"@), user_typed)
    } else {
        Some(block_content(block))
    }
}

/// What the blocks of a line's content come to, in order.
pub open spec fn block_pieces(blocks: Seq<Json>, user_typed: bool) -> Seq<ContentView>
    decreases blocks.len(),
{
    if blocks.len() == 0 {
        Seq::empty()
    } else {
        block_pieces(blocks.drop_last(), user_typed) + at_most_one(
            block_piece(blocks.last(), user_typed),
        )
    }
}

/// Whether piece `i` is the first reasoning marker.
pub open spec fn is_first_reasoning(pieces: Seq<ContentView>, i: int) -> bool {
    &&& 0 <= i < pieces.len()
    &&& pieces[i] is ReasoningSummary
    &&& forall|j: int| 0 <= j < i ==> !((#[trigger] pieces[j]) is ReasoningSummary)
}

/// The pieces with `tokens` on the first reasoning marker, where there is one.
pub open spec fn with_reasoning_tokens(pieces: Seq<ContentView>, tokens: Option<u64>) -> Seq<
    ContentView,
> {
    if exists|i: int| is_first_reasoning(pieces, i) {
        pieces.update(
            choose|i: int| is_first_reasoning(pieces, i),
            ContentView::ReasoningSummary { tokens },
        )
    } else {
        pieces
    }
}

/// A text as a piece of one kind, where there is one.
pub open spec fn summary_piece(text: Option<Seq<char>>) -> Option<ContentView> {
    match text {
        Some(text) => Some(ContentView::Summary(text)),
        None => None,
    }
}

/// A text as an error, where there is one.
pub open spec fn error_piece(text: Option<Seq<char>>) -> Option<ContentView> {
    match text {
        Some(text) => Some(ContentView::Error(text)),
        None => None,
    }
}

/// The tokens written to a cache: the total, or, for a writer that leaves it out, the sum of the
/// split by cache lifetime.
pub open spec fn cache_written(usage: Json) -> Option<u64> {
    match u64_of(at(usage, "cache_creation_input_tokens"@)) {
        Some(total) => Some(total),
        None => match at(usage, "cache_creation"@) {
            Json::Object(split) => if has_count(split) {
                Some(count_sum(split) as u64)
            } else {
                None
            },
            _ => None,
        },
    }
}

impl CcodeLine {
    /// What the line says.
    pub open spec fn pieces(self) -> Seq<ContentView> {
        match self.queued_command() {
            Some(queued) => match at(queued, "prompt"@) {
                Json::Str(text) => at_most_one(text_piece(text, true)),
                Json::Array(blocks) => blocks.map_values(|block: Json| block_content(block)),
                _ => Seq::empty(),
            },
            None => match self.raw_content() {
                Some(raw) => if self.is_compact_summary == Some(true) {
                    at_most_one(summary_piece(joined(raw)))
                } else if self.is_api_error() {
                    at_most_one(error_piece(self.error_text(raw)))
                } else {
                    with_reasoning_tokens(self.raw_pieces(raw), self.thinking_tokens())
                },
                // A failed call that says nothing still tells its error class.
                None => if self.message is Some && self.is_compact_summary != Some(true)
                    && self.is_api_error() {
                    at_most_one(error_piece(self.error_text(Json::Null)))
                } else {
                    Seq::empty()
                },
            },
        }
    }

    /// What an API error line tells: its text, or else its error class.
    pub open spec fn error_text(self, raw: Json) -> Option<Seq<char>> {
        match joined(raw) {
            Some(text) => Some(text),
            None => match self.error {
                Some(error) => string_of(error),
                None => None,
            },
        }
    }

    /// What a line's raw content comes to. Everything but model output can hold a record of a
    /// command the user ran.
    pub open spec fn raw_pieces(self, raw: Json) -> Seq<ContentView> {
        let user_typed = self.raw_role() != "assistant"@;
        match raw {
            Json::Str(text) => at_most_one(text_piece(text, user_typed)),
            Json::Array(blocks) => block_pieces(blocks, user_typed),
            _ => Seq::empty(),
        }
    }

    /// The model that produced the line.
    pub open spec fn model(self) -> Option<Seq<char>> {
        if self.is_synthetic() {
            None
        } else {
            match self.message {
                Some(message) => string_of(at(message, "model"@)),
                None => None,
            }
        }
    }

    /// What the line tells of token usage. A line the harness wrote itself made no API call; its
    /// zeroed usage is not one.
    pub open spec fn reported_usage(self) -> Option<Json> {
        if self.is_synthetic() {
            None
        } else {
            match self.message {
                Some(message) => if at(message, "usage"@) is Null {
                    None
                } else {
                    Some(at(message, "usage"@))
                },
                None => None,
            }
        }
    }

    /// Whether a sum of cache writes that has to be made fits 64 bits.
    pub open spec fn cache_split_fits(self) -> bool {
        match self.reported_usage() {
            Some(usage) => match at(usage, "cache_creation"@) {
                Json::Object(split) => {
                    ||| u64_of(at(usage, "cache_creation_input_tokens"@)) is Some
                    ||| count_sum(split) <= u64::MAX
                },
                _ => true,
            },
            None => true,
        }
    }

    /// The tokens that the line's model call used.
    pub open spec fn usage(self) -> Option<Usage> {
        match self.reported_usage() {
            Some(usage) => Some(
                Usage {
                    input: u64_of(at(usage, "input_tokens"@)),
                    output: u64_of(at(usage, "output_tokens"@)),
                    cache_read: u64_of(at(usage, "cache_read_input_tokens"@)),
                    cache_write: cache_written(usage),
                },
            ),
            None => None,
        }
    }

    /// Whether the line records that the user interrupted the turn.
    pub open spec fn is_interrupt(self) -> bool {
        &&& self.raw_role() == "user"@
        &&& (self.first_text() matches Some(text) && begins(
            trimmed_start(text),
            "[Request interrupted by user"@,
        ))
    }

    /// Why the model stopped, or the turn ended. An interrupt is recorded as a user line; it is
    /// the turn that it ends.
    pub open spec fn stop_reason(self) -> Option<StopReasonView> {
        if self.is_api_error() {
            Some(StopReasonView::Error)
        } else if self.is_interrupt() {
            Some(StopReasonView::Aborted)
        } else {
            match self.message {
                Some(message) => match string_of(at(message, "stop_reason"@)) {
                    Some(raw) => Some(stop_reason_of(raw)),
                    None => None,
                },
                None => None,
            }
        }
    }

    /// The line before this one.
    pub open spec fn parent_id(self) -> Option<Seq<char>> {
        match self.parent_uuid {
            Some(parent) => Some(parent),
            None => self.logical_parent_uuid,
        }
    }

    /// The session a fork was copied from, else the session the line names.
    pub open spec fn parent_session(self) -> Option<Seq<char>> {
        match self.forked_from {
            Some(origin) => match string_of(at(origin, "sessionId"@)) {
                Some(session) => Some(session),
                None => self.session_id,
            },
            None => self.session_id,
        }
    }

    /// The API message id.
    pub open spec fn turn_id(self) -> Option<Seq<char>> {
        if self.is_synthetic() {
            None
        } else {
            match self.message {
                Some(message) => string_of(at(message, "id"@)),
                None => None,
            }
        }
    }

    /// The session's title: the user's, else the generated one, else that of a legacy summary.
    pub open spec fn title(self) -> Option<Seq<char>> {
        if self.custom_title is Some {
            self.custom_title
        } else if self.ai_title is Some {
            self.ai_title
        } else if self.kind == "summary"@ {
            match self.summary {
                Some(summary) => string_of(summary),
                None => None,
            }
        } else {
            None
        }
    }

    /// When the line was written.
    pub open spec fn written(self) -> Option<Timestamp> {
        match self.timestamp {
            Some(text) => rfc3339(text),
            None => None,
        }
    }
}

/// The stop reason that the API's name for it stands for.
pub fn ccode_stop_reason(raw: &str) -> (r: StopReason)
    ensures
        r@ == stop_reason_of(raw@),
{
    if text::same(raw, "end_turn") {
        StopReason::EndTurn
    } else if text::same(raw, "max_tokens") {
        StopReason::MaxTokens
    } else if text::same(raw, "tool_use") {
        StopReason::ToolUse
    } else if text::same(raw, "stop_sequence") {
        StopReason::StopSequence
    } else if text::same(raw, "refusal") {
        StopReason::Refusal
    } else {
        StopReason::Other(raw.to_owned())
    }
}

/// Whether a user line's or queued command's `origin` names the user: the harness writes none, or
/// `{"kind": "human"}`, for a prompt the user submitted; anything else (`task-notification`,
/// `peer`, `auto-continuation`, ...) is the harness speaking.
pub fn human_origin(origin: Option<&JsonValue>) -> (r: bool)
    ensures
        r == is_human(viewed(origin)),
{
    match origin {
        Some(origin) => origin.is_null() || is_text(origin.at("kind").as_str(), "human"),
        None => true,
    }
}

/// The text of every text block (or a plain string), joined.
pub fn joined_text(raw: &JsonValue) -> (r: Option<String>)
    ensures
        viewed(r) == joined(raw@),
{
    match raw {
        JsonValue::String(text) => Some(text.clone()),
        JsonValue::Array(blocks) => {
            let mut out: Option<String> = None;
            let mut i: usize = 0;
            let ghost all = items_view(blocks@);
            while i < blocks.len()
                invariant
                    i <= blocks@.len(),
                    all == items_view(blocks@),
                    (match out {
                        Some(text) => {
                            &&& block_texts(all.take(i as int)).len() > 0
                            &&& text@ == lines_of(block_texts(all.take(i as int)))
                        },
                        None => block_texts(all.take(i as int)).len() == 0,
                    }),
                decreases blocks.len() - i,
            {
                proof {
                    assert(all.take(i + 1).drop_last() =~= all.take(i as int));
                    assert(all.take(i + 1).last() == blocks@[i as int]@);
                }
                if let Some(text) = blocks[i].at("text").as_str() {
                    proof {
                        let before = block_texts(all.take(i as int));
                        assert(before.push(text@).drop_last() =~= before);
                    }
                    out = match out {
                        Some(mut line) => {
                            line.append("\n");
                            line.append(text);
                            Some(line)
                        },
                        None => Some(text.to_owned()),
                    };
                }
                i += 1;
            }
            assert(all.take(i as int) =~= all);
            out
        },
        _ => None,
    }
}

impl CcodeMessage {
    /// What one block of a message's content is normalized to.
    pub fn block(value: &JsonValue) -> (r: Content)
        ensures
            r@ == block_content(value@),
    {
        let kind = match value.at("type").as_str() {
            Some(kind) => kind,
            None => {
                return Content::Other(value.clone());
            },
        };
        if text::same(kind, "text") {
            Content::Text(value.text_at("text"))
        } else if text::same(kind, "thinking") || text::same(kind, "redacted_thinking") {
            Content::ReasoningSummary { tokens: None }
        } else if text::same(kind, "tool_use") {
            Content::ToolUse(
                ToolUse {
                    id: ToolCallId(value.text_at("id")),
                    name: value.text_at("name"),
                    input: value.at("input").clone(),
                },
            )
        } else if text::same(kind, "tool_result") {
            Content::ToolResult(
                ToolResult {
                    call: ToolCallId(value.text_at("tool_use_id")),
                    output: value.at("content").clone(),
                    error: match value.at("is_error").as_bool() {
                        Some(error) => error,
                        None => false,
                    },
                },
            )
        } else if text::same(kind, "image") || text::same(kind, "document") {
            // Pasted media: keep what it was, not its (base64) bytes.
            let source = value.at("source");
            let kept = JsonObject::new().with("type".to_owned(), source.at("type").clone()).with(
                "media_type".to_owned(),
                source.at("media_type").clone(),
            );
            let object = JsonObject::new().with(
                "type".to_owned(),
                JsonValue::String(kind.to_owned()),
            ).with("source".to_owned(), JsonValue::Object(kept));
            Content::Other(JsonValue::Object(object))
        } else {
            Content::Other(value.clone())
        }
    }

    /// The line's raw content: `message.content`, else the top-level `content` (system lines).
    pub fn raw_content(&self) -> (r: Option<&JsonValue>)
        ensures
            viewed(r) == self@.raw_content(),
    {
        match &self.message {
            Some(message) => match message.get("content") {
                Some(content) => Some(content),
                None => self.content.as_ref(),
            },
            None => self.content.as_ref(),
        }
    }

    /// The line's role as written: `message.role`, else its `type`.
    pub fn raw_role(&self) -> (r: &str)
        ensures
            r@ == self@.raw_role(),
    {
        match &self.message {
            Some(message) => match message.at("role").as_str() {
                Some(role) => role,
                None => self.kind.as_str(),
            },
            None => self.kind.as_str(),
        }
    }

    /// The text a line opens with, peeked without cloning its blocks.
    pub fn first_text(&self) -> (r: Option<&str>)
        ensures
            viewed(r) == self@.first_text(),
    {
        match self.raw_content() {
            Some(raw) => match raw {
                JsonValue::String(text) => Some(text.as_str()),
                JsonValue::Array(blocks) => if blocks.len() > 0 {
                    assert(items_view(blocks@)[0] == blocks@[0]@);
                    blocks[0].at("text").as_str()
                } else {
                    None
                },
                _ => None,
            },
            None => None,
        }
    }

    /// A synthetic assistant line the harness wrote for a failed API call (`isApiErrorMessage`).
    pub fn is_api_error(&self) -> (r: bool)
        ensures
            r == self@.is_api_error(),
    {
        self.is_api_error_message == Some(true)
    }

    /// The harness wrote this assistant line itself (an API error, a canned reply).
    pub fn is_synthetic(&self) -> (r: bool)
        ensures
            r == self@.is_synthetic(),
    {
        self.is_api_error() || match &self.message {
            Some(message) => is_text(message.at("model").as_str(), "<synthetic>"),
            None => false,
        }
    }

    /// A `queued_command` attachment: a prompt delivered while the agent was busy (the user's, or
    /// a background task's notification).
    pub fn queued_command(&self) -> (r: Option<&JsonValue>)
        ensures
            viewed(r) == self@.queued_command(),
    {
        match &self.attachment {
            Some(attachment) => if is_text(attachment.at("type").as_str(), "queued_command") {
                Some(attachment)
            } else {
                None
            },
            None => None,
        }
    }

    /// Whether a queued command is one the user typed. The harness shows it as the user's turn
    /// when `commandMode` is `prompt`, it is not `isMeta` and its origin is human; a task
    /// notification has `commandMode: "task-notification"`.
    pub fn queued_by_user(queued: &JsonValue) -> (r: bool)
        ensures
            r == is_queued_by_user(queued@),
    {
        let mode = queued.at("commandMode");
        queued.at("isMeta").as_bool() != Some(true) && (mode.is_null() || is_text(
            mode.as_str(),
            "prompt",
        )) && human_origin(queued.get("origin"))
    }

    /// A user-role line the harness wrote itself rather than the user typing it.
    pub fn injected_user_line(&self) -> (r: bool)
        ensures
            r == self@.is_injected(),
    {
        if self.is_meta == Some(true) || !human_origin(self.origin.as_ref()) {
            return true;
        }
        match self.first_text() {
            Some(text) => {
                let shown = text::trim_start(text);
                text::starts_with(shown, "<local-command-stdout>") || text::starts_with(
                    shown,
                    "<local-command-stderr>",
                ) || text::starts_with(shown, "<bash-stdout>") || text::starts_with(
                    shown,
                    "<bash-stderr>",
                ) || text::starts_with(shown, "<local-command-caveat>") || text::starts_with(
                    shown,
                    "<task-notification>",
                ) || text::starts_with(shown, "<tick>") || text::starts_with(
                    shown,
                    "[Request interrupted by user",
                )
            },
            None => false,
        }
    }

    /// A `local_command` system line recording the slash command the user typed (as opposed to
    /// its output, written as another `local_command` line).
    pub fn typed_local_command(&self) -> (r: bool)
        ensures
            r == self@.is_typed_local_command(),
    {
        if !text::same(self.kind.as_str(), "system") {
            return false;
        }
        match &self.subtype {
            Some(subtype) => if !text::same(subtype.as_str(), "local_command") {
                return false;
            },
            None => {
                return false;
            },
        }
        match self.first_text() {
            Some(text) => text::starts_with(text::trim_start(text), "<command-"),
            None => false,
        }
    }

    /// Thinking tokens the call reported (`usage.output_tokens_details.thinking_tokens`).
    pub fn thinking_tokens(&self) -> (r: Option<u64>)
        ensures
            r == self@.thinking_tokens(),
    {
        match &self.message {
            Some(message) => message.at("usage").at("output_tokens_details").at(
                "thinking_tokens",
            ).as_u64(),
            None => None,
        }
    }

    /// Who the line is from.
    pub fn role(&self) -> (r: Role)
        ensures
            r@ == self@.role(),
    {
        if text::same(self.kind.as_str(), "attachment") {
            return match self.queued_command() {
                Some(queued) => if Self::queued_by_user(queued) {
                    Role::User
                } else {
                    Role::System
                },
                None => Role::Other(self.kind.clone()),
            };
        }
        if self.is_compact_summary == Some(true) {
            return Role::System;
        }
        if self.typed_local_command() {
            return Role::User;
        }
        let raw = self.raw_role();
        if text::same(raw, "user") {
            if self.injected_user_line() {
                Role::System
            } else {
                Role::User
            }
        } else if text::same(raw, "assistant") {
            Role::Assistant
        } else if text::same(raw, "system") {
            Role::System
        } else if text::same(raw, "tool") {
            Role::Tool
        } else {
            Role::Other(raw.to_owned())
        }
    }
}

/// A text as a piece of content: what the user typed, or the text as it is.
fn text_content(text: &str, user_typed: bool) -> (r: Option<Content>)
    ensures
        viewed(r) == text_piece(text@, user_typed),
{
    if user_typed {
        match typed_text(text) {
            Some(line) => Some(Content::Text(line)),
            None => None,
        }
    } else {
        Some(Content::Text(text.to_owned()))
    }
}

/// What the blocks of a line's content come to, in order.
fn block_contents(blocks: &Vec<JsonValue>, user_typed: bool) -> (r: Vec<Content>)
    ensures
        contents(r@) == block_pieces(items_view(blocks@), user_typed),
{
    let mut out: Vec<Content> = Vec::new();
    let mut i: usize = 0;
    let ghost all = items_view(blocks@);
    assert(contents(out@) =~= block_pieces(all.take(0), user_typed));
    while i < blocks.len()
        invariant
            i <= blocks@.len(),
            all == items_view(blocks@),
            contents(out@) == block_pieces(all.take(i as int), user_typed),
        decreases blocks.len() - i,
    {
        let block = &blocks[i];
        let piece = if is_text(block.at("type").as_str(), "text") {
            text_content(block.text_at("text").as_str(), user_typed)
        } else {
            Some(CcodeMessage::block(block))
        };
        proof {
            assert(all.take(i + 1).drop_last() =~= all.take(i as int));
            assert(all.take(i + 1).last() == block@);
        }
        let ghost before = out@;
        if let Some(piece) = piece {
            out.push(piece);
        }
        assert(contents(out@) =~= contents(before) + at_most_one(viewed(piece)));
        i += 1;
    }
    assert(all.take(i as int) =~= all);
    out
}

/// Puts `tokens` on the first reasoning marker, where there is one.
fn mark_reasoning(pieces: &mut Vec<Content>, tokens: Option<u64>)
    ensures
        contents(final(pieces)@) == with_reasoning_tokens(contents(old(pieces)@), tokens),
{
    let ghost before = contents(pieces@);
    let mut i: usize = 0;
    while i < pieces.len()
        invariant
            i <= pieces@.len(),
            before == contents(old(pieces)@),
            contents(pieces@) == before,
            forall|j: int| 0 <= j < i ==> !((#[trigger] before[j]) is ReasoningSummary),
        decreases pieces.len() - i,
    {
        let found = match &pieces[i] {
            Content::ReasoningSummary { .. } => true,
            _ => false,
        };
        assert(before[i as int] == pieces@[i as int]@);
        if found {
            pieces.set(i, Content::ReasoningSummary { tokens });
            proof {
                assert(is_first_reasoning(before, i as int));
                let first = choose|k: int| is_first_reasoning(before, k);
                assert(first == i) by {
                    assert(before[first] is ReasoningSummary);
                    assert(before[i as int] is ReasoningSummary);
                }
                assert(contents(pieces@) =~= before.update(
                    i as int,
                    ContentView::ReasoningSummary { tokens },
                ));
            }
            return ;
        }
        i += 1;
    }
}

impl CcodeMessage {
    /// The line's own id.
    pub fn id(&self) -> (r: Option<MessageId>)
        ensures
            viewed(r) == self@.uuid,
    {
        match &self.uuid {
            Some(uuid) => Some(MessageId(uuid.clone())),
            None => None,
        }
    }

    /// When the line was written.
    pub fn timestamp(&self) -> (r: Option<Timestamp>)
        ensures
            r == self@.written(),
    {
        match &self.timestamp {
            Some(text) => parse_rfc3339(text.as_str()),
            None => None,
        }
    }

    /// What the line says.
    pub fn content(&self) -> (r: Vec<Content>)
        ensures
            contents(r@) == self@.pieces(),
    {
        if let Some(queued) = self.queued_command() {
            return match queued.at("prompt") {
                JsonValue::String(text) => pieces_of(text_content(text.as_str(), true)),
                JsonValue::Array(blocks) => {
                    let mut out: Vec<Content> = Vec::new();
                    let mut i: usize = 0;
                    while i < blocks.len()
                        invariant
                            i <= blocks@.len(),
                            out@.len() == i,
                            forall|j: int|
                                0 <= j < i ==> (#[trigger] out@[j])@ == block_content(blocks@[j]@),
                        decreases blocks.len() - i,
                    {
                        out.push(Self::block(&blocks[i]));
                        i += 1;
                    }
                    assert(contents(out@) =~= items_view(blocks@).map_values(
                        |block: Json| block_content(block),
                    ));
                    out
                },
                _ => pieces_of(None),
            };
        }
        let null = JsonValue::Null;
        let raw = match self.raw_content() {
            Some(raw) => raw,
            None => {
                if self.message.is_none() {
                    return pieces_of(None);
                }
                &null
            },
        };
        if self.is_compact_summary == Some(true) {
            return pieces_of(
                match joined_text(raw) {
                    Some(text) => Some(Content::Summary(text)),
                    None => None,
                },
            );
        }
        if self.is_api_error() {
            let text = match joined_text(raw) {
                Some(text) => Some(text),
                None => match &self.error {
                    Some(error) => owned(error.as_str()),
                    None => None,
                },
            };
            return pieces_of(
                match text {
                    Some(text) => Some(Content::Error(text)),
                    None => None,
                },
            );
        }
        // Everything but model output can hold a record of a command the user ran.
        let user_typed = !text::same(self.raw_role(), "assistant");
        let mut content = match raw {
            JsonValue::String(text) => pieces_of(text_content(text.as_str(), user_typed)),
            JsonValue::Array(blocks) => block_contents(blocks, user_typed),
            _ => pieces_of(None),
        };
        // One reasoning marker per thinking block, so a call split over several lines is marked on
        // the line that did the thinking only. The call's thinking tokens (repeated on every line)
        // ride on that marker.
        mark_reasoning(&mut content, self.thinking_tokens());
        content
    }

    /// The model that produced the line.
    pub fn model(&self) -> (r: Option<String>)
        ensures
            viewed(r) == self@.model(),
    {
        if self.is_synthetic() {
            return None;
        }
        match &self.message {
            Some(message) => owned(message.at("model").as_str()),
            None => None,
        }
    }

    /// Whether a sum of cache writes that has to be made fits 64 bits; where it does not, the usage
    /// cannot be told.
    pub fn usage_fits(&self) -> (r: bool)
        ensures
            r == self@.cache_split_fits(),
    {
        if self.is_synthetic() {
            return true;
        }
        match &self.message {
            Some(message) => {
                let usage = message.at("usage");
                match usage.at("cache_creation") {
                    JsonValue::Object(split) => {
                        usage.at("cache_creation_input_tokens").as_u64().is_some()
                            || split.counts_fit()
                    },
                    _ => true,
                }
            },
            None => true,
        }
    }

    /// The tokens that the line's model call used.
    pub fn usage(&self) -> (r: Option<Usage>)
        requires
            self@.cache_split_fits(),
        ensures
            r == self@.usage(),
    {
        if self.is_synthetic() {
            return None;
        }
        let usage = match &self.message {
            Some(message) => message.at("usage"),
            None => {
                return None;
            },
        };
        if usage.is_null() {
            return None;
        }
        // The split by cache lifetime, for a writer that leaves out the total.
        let cache_write = match usage.at("cache_creation_input_tokens").as_u64() {
            Some(total) => Some(total),
            None => match usage.at("cache_creation") {
                JsonValue::Object(split) => split.count_total(),
                _ => None,
            },
        };
        Some(
            Usage {
                input: usage.at("input_tokens").as_u64(),
                output: usage.at("output_tokens").as_u64(),
                cache_read: usage.at("cache_read_input_tokens").as_u64(),
                cache_write,
            },
        )
    }

    /// Why the model stopped, or the turn ended.
    pub fn stop_reason(&self) -> (r: Option<StopReason>)
        ensures
            viewed(r) == self@.stop_reason(),
    {
        if self.is_api_error() {
            return Some(StopReason::Error);
        }
        // An interrupt is recorded as a user line; it is the turn that it ends.
        if text::same(self.raw_role(), "user") {
            if let Some(text) = self.first_text() {
                if text::starts_with(text::trim_start(text), "[Request interrupted by user") {
                    return Some(StopReason::Aborted);
                }
            }
        }
        match &self.message {
            Some(message) => match message.at("stop_reason").as_str() {
                Some(raw) => Some(ccode_stop_reason(raw)),
                None => None,
            },
            None => None,
        }
    }

    /// Where the session was at.
    pub fn cwd(&self) -> (r: Option<String>)
        ensures
            viewed(r) == self@.cwd,
    {
        self.cwd.clone()
    }

    /// The git branch the session was on.
    pub fn git_branch(&self) -> (r: Option<String>)
        ensures
            viewed(r) == self@.git_branch,
    {
        self.git_branch.clone()
    }

    /// The line before this one.
    pub fn parent_id(&self) -> (r: Option<MessageId>)
        ensures
            viewed(r) == self@.parent_id(),
    {
        match &self.parent_uuid {
            Some(parent) => Some(MessageId(parent.clone())),
            None => match &self.logical_parent_uuid {
                Some(parent) => Some(MessageId(parent.clone())),
                None => None,
            },
        }
    }

    /// The session a fork was copied from (`forkedFrom`), else the session the line names: a
    /// subagent's (or `/btw` side question's) lines name the session that spawned it.
    pub fn parent_session(&self) -> (r: Option<SessionId>)
        ensures
            viewed(r) == self@.parent_session(),
    {
        if let Some(origin) = &self.forked_from {
            if let Some(session) = origin.at("sessionId").as_str() {
                return Some(SessionId(session.to_owned()));
            }
        }
        match &self.session_id {
            Some(session) => Some(SessionId(session.clone())),
            None => None,
        }
    }

    /// The API message id: one per model call, shared by every line the response is split into,
    /// and kept when the harness copies the line into a fork or a `/btw` replay.
    pub fn turn_id(&self) -> (r: Option<String>)
        ensures
            viewed(r) == self@.turn_id(),
    {
        if self.is_synthetic() {
            return None;
        }
        match &self.message {
            Some(message) => owned(message.at("id").as_str()),
            None => None,
        }
    }

    /// The session's title: the user's, else the generated one, else that of a legacy summary.
    pub fn title(&self) -> (r: Option<String>)
        ensures
            viewed(r) == self@.title(),
    {
        if let Some(title) = &self.custom_title {
            return Some(title.clone());
        }
        if let Some(title) = &self.ai_title {
            return Some(title.clone());
        }
        if !text::same(self.kind.as_str(), "summary") {
            return None;
        }
        match &self.summary {
            Some(summary) => owned(summary.as_str()),
            None => None,
        }
    }
}

} // verus!
