//! One line of a Codex rollout.

use vstd::prelude::*;
use vstd::string::*;

use crate::clock::{parse_rfc3339, rfc3339, Timestamp};
use crate::codex::contextual::{is_contextual, is_contextual_user_text};
use crate::codex::output::{codex_output_failed, output_fails};
use crate::codex::usage::{count_at, key_of, token_usage, usage_key, usage_of};
use crate::json::{at, items_view, string_of, text_at, Json, JsonValue};
use crate::model::{
    contents, is_text, owned, pieces_of, viewed, Content, ContentView, MessageId, Role, RoleView,
    SessionId, StopReason, StopReasonView, ToolCallId, ToolResult, ToolUse, Usage,
};
use crate::render::json_text;
use crate::text;
use crate::text::ends;

verus! {

/// What a line cannot tell about itself, which the reader of its rollout knows.
#[derive(Debug, Clone)]
pub struct LineContext {
    /// The rollout's own session. A `session_meta` naming another was copied in from the rollout a
    /// fork or subagent started from.
    pub session: Option<SessionId>,
    /// An earlier line was a `token_usage_record`: this rollout records usage per model call, so
    /// its `token_count` lines only repeat it.
    pub usage_recorded: bool,
}

impl Default for LineContext {
    fn default() -> (r: Self)
        ensures
            r.session is None,
            !r.usage_recorded,
    {
        LineContext { session: None, usage_recorded: false }
    }
}

/// One line of a Codex rollout.
#[derive(Debug, Clone)]
pub struct CodexMessage {
    /// The line's `type`.
    pub kind: String,
    pub timestamp: Option<String>,
    pub payload: Option<JsonValue>,
    pub context: LineContext,
}

/// What a [`CodexMessage`] stands for.
pub struct CodexLine {
    pub kind: Seq<char>,
    pub timestamp: Option<Seq<char>>,
    pub payload: Option<Json>,
    pub session: Option<Seq<char>>,
    pub usage_recorded: bool,
}

impl View for CodexMessage {
    type V = CodexLine;

    open spec fn view(&self) -> CodexLine {
        CodexLine {
            kind: self.kind@,
            timestamp: viewed(self.timestamp),
            payload: viewed(self.payload),
            session: viewed(self.context.session),
            usage_recorded: self.context.usage_recorded,
        }
    }
}

/// What one block of a message's content stands for.
pub open spec fn block_content(value: Json) -> ContentView {
    match string_of(at(value, "type"@)) {
        Some(kind) => if kind == "input_text"@ || kind == "output_text"@ || kind == "text"@ {
            ContentView::Text(text_at(value, "text"@))
        } else {
            ContentView::Other(value)
        },
        None => ContentView::Other(value),
    }
}

/// Whether a block is a text that the harness injected.
pub open spec fn is_contextual_block(block: Json) -> bool {
    &&& string_of(at(block, "type"@)) == Some("input_text"@)
    &&& (string_of(at(block, "text"@)) matches Some(text) && is_contextual(text))
}

/// Whether one of the blocks is a text that the harness injected.
pub open spec fn any_contextual_block(blocks: Seq<Json>) -> bool {
    exists|i: int| 0 <= i < blocks.len() && is_contextual_block(#[trigger] blocks[i])
}

/// The id a call or its output goes by: `call_id`, or else `id`.
pub open spec fn call_or_own_id(payload: Json) -> Seq<char> {
    if at(payload, "call_id"@) is Str {
        text_at(payload, "call_id"@)
    } else {
        text_at(payload, "id"@)
    }
}

/// Whether a payload of this type is made by the model.
pub open spec fn is_model_item(kind: Seq<char>) -> bool {
    ||| kind == "function_call"@
    ||| kind == "custom_tool_call"@
    ||| kind == "local_shell_call"@
    ||| kind == "web_search_call"@
    ||| kind == "tool_search_call"@
    ||| kind == "reasoning"@
}

/// Whether a payload of this type is what came back from a tool.
pub open spec fn is_tool_output(kind: Seq<char>) -> bool {
    ||| kind == "function_call_output"@
    ||| kind == "custom_tool_call_output"@
    ||| kind == "tool_search_output"@
}

/// A tool call.
pub open spec fn tool_use(id: Seq<char>, name: Seq<char>, input: Json) -> Seq<ContentView> {
    seq![ContentView::ToolUse { id, name, input }]
}

/// What came back from a tool.
pub open spec fn tool_result(call: Seq<char>, output: Json, error: bool) -> Seq<ContentView> {
    seq![ContentView::ToolResult { call, output, error }]
}

/// What a message's `content` comes to.
pub open spec fn message_pieces(content: Json) -> Seq<ContentView> {
    match content {
        Json::Array(blocks) => blocks.map_values(|block: Json| block_content(block)),
        Json::Str(text) => seq![ContentView::Text(text)],
        _ => Seq::empty(),
    }
}

/// What an item of the conversation comes to.
pub open spec fn item_pieces(payload: Json) -> Seq<ContentView> {
    match string_of(at(payload, "type"@)) {
        Some(kind) => if kind == "reasoning"@ {
            seq![ContentView::ReasoningSummary { tokens: None }]
        } else if kind == "function_call"@ {
            tool_use(
                text_at(payload, "call_id"@),
                text_at(payload, "name"@),
                at(payload, "arguments"@),
            )
        } else if kind == "custom_tool_call"@ {
            tool_use(
                text_at(payload, "call_id"@),
                text_at(payload, "name"@),
                at(payload, "input"@),
            )
        } else if kind == "local_shell_call"@ {
            tool_use(call_or_own_id(payload), "local_shell"@, at(payload, "action"@))
        } else if kind == "web_search_call"@ {
            tool_use(text_at(payload, "id"@), "web_search"@, at(payload, "action"@))
        } else if kind == "tool_search_call"@ {
            tool_use(call_or_own_id(payload), "tool_search"@, at(payload, "arguments"@))
        } else if kind == "function_call_output"@ || kind == "custom_tool_call_output"@ {
            tool_result(
                text_at(payload, "call_id"@),
                at(payload, "output"@),
                output_fails(at(payload, "output"@)),
            )
        } else if kind == "tool_search_output"@ {
            tool_result(
                call_or_own_id(payload),
                at(payload, "tools"@),
                string_of(at(payload, "status"@)) matches Some(status) && status != "completed"@,
            )
        } else {
            message_pieces(at(payload, "content"@))
        },
        None => message_pieces(at(payload, "content"@)),
    }
}

/// A text with more text behind it, where there is one.
pub open spec fn prefixed(prefix: Seq<char>, text: Option<Seq<char>>) -> Option<Seq<char>> {
    match text {
        Some(text) => Some(prefix + text),
        None => None,
    }
}

impl CodexLine {
    /// The type of the line's payload.
    pub open spec fn payload_type(self) -> Option<Seq<char>> {
        match self.payload {
            Some(payload) => string_of(at(payload, "type"@)),
            None => None,
        }
    }

    /// Whether the line is an event of this kind.
    pub open spec fn is_event(self, kind: Seq<char>) -> bool {
        self.kind == "event_msg"@ && self.payload_type() == Some(kind)
    }

    /// Whether the line is a `token_count` event.
    pub open spec fn is_token_count(self) -> bool {
        self.is_event("token_count"@)
    }

    /// Whether the line records the usage of one model call.
    pub open spec fn is_usage_record(self) -> bool {
        self.kind == "token_usage_record"@
    }

    /// Whether the line is a `session_meta` that describes another session than the rollout's own.
    pub open spec fn is_copied_meta(self) -> bool {
        &&& self.kind == "session_meta"@
        &&& self.session matches Some(own)
        &&& self.payload matches Some(payload)
        &&& string_of(at(payload, "id"@)) matches Some(id)
        &&& id != own
    }

    /// This rollout's own `session_meta` payload.
    pub open spec fn own_meta(self) -> Option<Json> {
        if self.kind == "session_meta"@ && !self.is_copied_meta() {
            self.payload
        } else {
            None
        }
    }

    /// The `info` of a `token_count` in a rollout that does not record usage per model call.
    pub open spec fn snapshot(self) -> Option<Json> {
        if self.is_token_count() && !self.usage_recorded {
            match self.payload {
                Some(payload) => Some(at(payload, "info"@)),
                None => None,
            }
        } else {
            None
        }
    }

    /// The tokens that a snapshot newly reports.
    pub open spec fn new_tokens(info: Json) -> nat {
        count_at(at(info, "last_token_usage"@), "input_tokens"@) + count_at(
            at(info, "last_token_usage"@),
            "output_tokens"@,
        )
    }

    /// Whether the newly reported tokens, where they are to be added up, fit 64 bits.
    pub open spec fn new_tokens_fit(self) -> bool {
        match self.snapshot() {
            Some(info) => CodexLine::new_tokens(info) <= u64::MAX,
            None => true,
        }
    }

    /// The `info` of a `token_count` that reports usage of its own: only in a rollout that records
    /// none per model call, and not for a snapshot of no new tokens.
    pub open spec fn token_count_info(self) -> Option<Json> {
        match self.snapshot() {
            Some(info) => if CodexLine::new_tokens(info) > 0 {
                Some(info)
            } else {
                None
            },
            None => None,
        }
    }

    /// The model call that a usage record accounts for: its response, else the thread's total.
    pub open spec fn recorded_turn(payload: Json) -> Option<Seq<char>> {
        let response = text_at(payload, "response_id"@);
        if response.len() > 0 {
            Some(response)
        } else {
            prefixed("thread:"@, key_of(at(payload, "thread_token_usage"@)))
        }
    }

    /// The model call that a snapshot accounts for: the thread's running total, else the time and
    /// what was newly reported.
    pub open spec fn counted_turn(self, info: Json) -> Option<Seq<char>> {
        match key_of(at(info, "total_token_usage"@)) {
            Some(total) => Some("token_count:"@ + total),
            None => prefixed(
                "token_count:"@ + match self.timestamp {
                    Some(time) => time,
                    None => Seq::empty(),
                } + ":"@,
                key_of(at(info, "last_token_usage"@)),
            ),
        }
    }

    /// The model call a usage line accounts for.
    pub open spec fn usage_turn(self) -> Option<Seq<char>> {
        if self.is_usage_record() {
            match self.payload {
                Some(payload) => CodexLine::recorded_turn(payload),
                None => None,
            }
        } else {
            match self.token_count_info() {
                Some(info) => self.counted_turn(info),
                None => None,
            }
        }
    }

    /// The error a turn completed with.
    pub open spec fn turn_error(self) -> Option<Json> {
        match self.payload {
            Some(payload) => if self.is_event("turn_complete"@) && !(at(
                payload,
                "error"@,
            ) is Null) {
                Some(at(payload, "error"@))
            } else {
                None
            },
            None => None,
        }
    }

    /// The error a turn completed with, where it has no message.
    pub open spec fn unexplained_error(self) -> Option<Json> {
        match self.turn_error() {
            Some(error) => if string_of(at(error, "message"@)) is None {
                Some(error)
            } else {
                None
            },
            None => None,
        }
    }

    /// Why the turn this event ends failed or stopped, when it did; an error without a message is
    /// told as `error_text`.
    pub open spec fn failure_told(self, error_text: Seq<char>) -> Option<
        (StopReasonView, Seq<char>),
    > {
        match self.payload {
            Some(payload) => if self.is_event("turn_aborted"@) {
                Some(
                    (
                        StopReasonView::Aborted,
                        match string_of(at(payload, "reason"@)) {
                            Some(reason) => reason,
                            None => "aborted"@,
                        },
                    ),
                )
            } else {
                match self.turn_error() {
                    Some(error) => Some(
                        (
                            StopReasonView::Error,
                            match string_of(at(error, "message"@)) {
                                Some(message) => message,
                                None => error_text,
                            },
                        ),
                    ),
                    None => None,
                }
            },
            None => None,
        }
    }

    /// Why the turn this event ends failed or stopped, when it did; an error without a message is
    /// told as its JSON text.
    pub open spec fn failure(self) -> Option<(StopReasonView, Seq<char>)> {
        match self.unexplained_error() {
            Some(error) => self.failure_told(json_text(error)),
            None => self.failure_told(Seq::empty()),
        }
    }

    /// Whether the line ends a turn that failed or was stopped.
    pub open spec fn fails(self) -> bool {
        self.payload is Some && (self.is_event("turn_aborted"@) || self.turn_error() is Some)
    }

    /// Whether this `user` message is context the harness injected: any of its texts is a
    /// contextual fragment.
    pub open spec fn is_contextual(self) -> bool {
        match self.payload {
            Some(payload) => match at(payload, "content"@) {
                Json::Array(blocks) => any_contextual_block(blocks),
                _ => false,
            },
            None => false,
        }
    }

    /// The id of a line that is no usage line: that of the record, else that of the call, with a
    /// suffix for the call's output.
    pub open spec fn record_id(payload: Json) -> Option<Seq<char>> {
        match string_of(at(payload, "id"@)) {
            Some(id) => Some(id),
            None => match string_of(at(payload, "call_id"@)) {
                Some(call) => Some(
                    if ends(text_at(payload, "type"@), "_output"@) {
                        call + "#out"@
                    } else {
                        call
                    },
                ),
                None => None,
            },
        }
    }

    /// The line's own id.
    pub open spec fn id(self) -> Option<Seq<char>> {
        if self.is_usage_record() || self.is_token_count() {
            match self.usage_turn() {
                Some(turn) => Some(turn + "#usage"@),
                None => None,
            }
        } else if self.is_copied_meta() {
            None
        } else {
            match self.payload {
                Some(payload) => CodexLine::record_id(payload),
                None => None,
            }
        }
    }

    /// The line's role as written: `payload.role`, else its `type`.
    pub open spec fn raw_role(self) -> Seq<char> {
        match self.payload {
            Some(payload) => match string_of(at(payload, "role"@)) {
                Some(role) => role,
                None => self.kind,
            },
            None => self.kind,
        }
    }

    /// Who a line is from by its role as written.
    pub open spec fn written_role(self) -> RoleView {
        let raw = self.raw_role();
        if raw == "user"@ {
            if self.is_contextual() {
                RoleView::System
            } else {
                RoleView::User
            }
        } else if raw == "assistant"@ {
            RoleView::Assistant
        } else if raw == "system"@ || raw == "developer"@ {
            RoleView::System
        } else if raw == "tool"@ {
            RoleView::Tool
        } else {
            RoleView::Other(raw)
        }
    }

    /// Who the line is from.
    pub open spec fn role(self) -> RoleView {
        if self.kind == "compacted"@ {
            RoleView::System
        } else if self.fails() {
            RoleView::Assistant
        } else {
            match self.payload_type() {
                Some(kind) => if is_model_item(kind) {
                    RoleView::Assistant
                } else if is_tool_output(kind) {
                    RoleView::Tool
                } else {
                    self.written_role()
                },
                None => self.written_role(),
            }
        }
    }

    /// What the line says.
    pub open spec fn pieces(self) -> Seq<ContentView> {
        match self.payload {
            Some(payload) => if self.kind == "compacted"@ {
                let summary = text_at(payload, "message"@);
                if summary.len() > 0 {
                    seq![ContentView::Summary(summary)]
                } else {
                    Seq::empty()
                }
            } else {
                match self.failure() {
                    Some((_, why)) => seq![ContentView::Error(why)],
                    None => if self.kind == "event_msg"@ || self.kind == "session_meta"@ {
                        Seq::empty()
                    } else {
                        item_pieces(payload)
                    },
                }
            },
            None => Seq::empty(),
        }
    }

    /// The text of the member `name` of the payload, unless the line describes another session.
    pub open spec fn own_text(self, name: Seq<char>) -> Option<Seq<char>> {
        if self.is_copied_meta() {
            None
        } else {
            match self.payload {
                Some(payload) => string_of(at(payload, name)),
                None => None,
            }
        }
    }

    /// The tokens that the model call of a usage line used.
    pub open spec fn usage(self) -> Option<Usage> {
        if self.is_usage_record() {
            match self.payload {
                Some(payload) => token_usage(at(payload, "usage"@)),
                None => None,
            }
        } else {
            match self.token_count_info() {
                Some(info) => token_usage(at(info, "last_token_usage"@)),
                None => None,
            }
        }
    }

    /// Why the turn this event ends failed or stopped.
    pub open spec fn stop_reason(self) -> Option<StopReasonView> {
        match self.failure() {
            Some((reason, _)) => Some(reason),
            None => None,
        }
    }

    /// The git branch the session was on.
    pub open spec fn git_branch(self) -> Option<Seq<char>> {
        match self.own_meta() {
            Some(meta) => string_of(at(at(meta, "git"@), "branch"@)),
            None => None,
        }
    }

    /// The thread a fork or subagent started from.
    pub open spec fn parent_session(self) -> Option<Seq<char>> {
        match self.own_meta() {
            Some(meta) => match string_of(at(meta, "forked_from_id"@)) {
                Some(parent) => Some(parent),
                None => match string_of(at(meta, "parent_thread_id"@)) {
                    Some(parent) => Some(parent),
                    None => string_of(
                        at(
                            at(at(at(meta, "source"@), "subagent"@), "thread_spawn"@),
                            "parent_thread_id"@,
                        ),
                    ),
                },
            },
            None => None,
        }
    }

    /// When the line was written.
    pub open spec fn written(self) -> Option<Timestamp> {
        match self.timestamp {
            Some(text) => rfc3339(text),
            None => None,
        }
    }
}

/// A failure as its parts.
pub open spec fn failure_view(failure: Option<(StopReason, String)>) -> Option<
    (StopReasonView, Seq<char>),
> {
    match failure {
        Some((reason, why)) => Some((reason@, why@)),
        None => None,
    }
}

/// `text` and `more` one after the other.
fn joined(text: &str, more: &str) -> (r: String)
    ensures
        r@ == text@ + more@,
{
    let mut out = text.to_owned();
    out.append(more);
    out
}

/// The id a call or its output goes by: `call_id`, or else `id`.
fn call_or_own(payload: &JsonValue) -> (r: ToolCallId)
    ensures
        r@ == call_or_own_id(payload@),
{
    match payload.at("call_id").as_str() {
        Some(call) => ToolCallId(call.to_owned()),
        None => ToolCallId(payload.text_at("id")),
    }
}

/// A tool call.
fn call(id: ToolCallId, name: String, input: &JsonValue) -> (r: Vec<Content>)
    ensures
        contents(r@) == tool_use(id@, name@, input@),
{
    pieces_of(Some(Content::ToolUse(ToolUse { id, name, input: input.clone() })))
}

/// What came back from a tool.
fn result(call: ToolCallId, output: &JsonValue, error: bool) -> (r: Vec<Content>)
    ensures
        contents(r@) == tool_result(call@, output@, error),
{
    pieces_of(Some(Content::ToolResult(ToolResult { call, output: output.clone(), error })))
}

impl CodexMessage {
    /// What one block of a message's content is normalized to.
    pub fn block(value: &JsonValue) -> (r: Content)
        ensures
            r@ == block_content(value@),
    {
        match value.at("type").as_str() {
            Some(kind) => if text::same(kind, "input_text") || text::same(kind, "output_text")
                || text::same(kind, "text") {
                Content::Text(value.text_at("text"))
            } else {
                Content::Other(value.clone())
            },
            None => Content::Other(value.clone()),
        }
    }

    /// The type of the line's payload.
    pub fn payload_type(&self) -> (r: Option<&str>)
        ensures
            viewed(r) == self@.payload_type(),
    {
        match &self.payload {
            Some(payload) => payload.at("type").as_str(),
            None => None,
        }
    }

    /// Whether the line is an event of this kind.
    pub fn is_event(&self, kind: &str) -> (r: bool)
        ensures
            r == self@.is_event(kind@),
    {
        text::same(self.kind.as_str(), "event_msg") && is_text(self.payload_type(), kind)
    }

    /// Whether the line is a `token_count` event.
    pub fn is_token_count(&self) -> (r: bool)
        ensures
            r == self@.is_token_count(),
    {
        self.is_event("token_count")
    }

    /// Whether the line records the usage of one model call.
    pub fn is_usage_record(&self) -> (r: bool)
        ensures
            r == self@.is_usage_record(),
    {
        text::same(self.kind.as_str(), "token_usage_record")
    }

    /// A `session_meta` of another rollout's: one a fork or subagent copied in from its parent,
    /// which describes the parent, not this session.
    pub fn is_copied_meta(&self) -> (r: bool)
        ensures
            r == self@.is_copied_meta(),
    {
        if !text::same(self.kind.as_str(), "session_meta") {
            return false;
        }
        match (&self.context.session, &self.payload) {
            (Some(own), Some(payload)) => match payload.at("id").as_str() {
                Some(id) => !text::same(id, own.0.as_str()),
                None => false,
            },
            _ => false,
        }
    }

    /// This rollout's own `session_meta` payload.
    pub fn own_meta(&self) -> (r: Option<&JsonValue>)
        ensures
            viewed(r) == self@.own_meta(),
    {
        if text::same(self.kind.as_str(), "session_meta") && !self.is_copied_meta() {
            self.payload.as_ref()
        } else {
            None
        }
    }

    /// Whether the tokens that a snapshot newly reports, where they are to be added up, fit 64
    /// bits; where they do not, the usage cannot be told.
    pub fn usage_fits(&self) -> (r: bool)
        ensures
            r == self@.new_tokens_fit(),
    {
        if !self.is_token_count() || self.context.usage_recorded {
            return true;
        }
        match &self.payload {
            Some(payload) => {
                let last = payload.at("info").at("last_token_usage");
                match (last.at("input_tokens").as_u64(), last.at("output_tokens").as_u64()) {
                    (Some(input), Some(output)) => input.checked_add(output).is_some(),
                    _ => true,
                }
            },
            None => true,
        }
    }

    /// The `info` of a `token_count` that reports usage of its own: only in a rollout that records
    /// none per model call, and not for a snapshot of no new tokens (a rate-limit refresh, an
    /// estimate after compaction, the window filled after an overflow).
    pub fn token_count_info(&self) -> (r: Option<&JsonValue>)
        requires
            self@.new_tokens_fit(),
        ensures
            viewed(r) == self@.token_count_info(),
    {
        if !self.is_token_count() || self.context.usage_recorded {
            return None;
        }
        match &self.payload {
            Some(payload) => {
                let info = payload.at("info");
                let last = info.at("last_token_usage");
                let input: u64 = match last.at("input_tokens").as_u64() {
                    Some(n) => n,
                    None => 0,
                };
                let output: u64 = match last.at("output_tokens").as_u64() {
                    Some(n) => n,
                    None => 0,
                };
                if input + output > 0 {
                    Some(info)
                } else {
                    None
                }
            },
            None => None,
        }
    }

    /// The model call a usage line accounts for. A `token_usage_record` names its response. A
    /// `token_count` names none, so it is keyed on the thread's running total, which is unique per
    /// call and survives being copied into a fork (whose copies are re-stamped with the child's
    /// timestamps), and which repeats verbatim when Codex re-sends a snapshot.
    pub fn usage_turn(&self) -> (r: Option<String>)
        requires
            self@.new_tokens_fit(),
        ensures
            viewed(r) == self@.usage_turn(),
    {
        if self.is_usage_record() {
            return match &self.payload {
                Some(payload) => {
                    let response = payload.text_at("response_id");
                    if response.as_str().is_empty() {
                        match usage_key(payload.at("thread_token_usage")) {
                            Some(key) => Some(joined("thread:", key.as_str())),
                            None => None,
                        }
                    } else {
                        Some(response)
                    }
                },
                None => None,
            };
        }
        match self.token_count_info() {
            Some(info) => match usage_key(info.at("total_token_usage")) {
                Some(total) => Some(joined("token_count:", total.as_str())),
                None => match usage_key(info.at("last_token_usage")) {
                    Some(last) => {
                        let mut turn = "token_count:".to_owned();
                        if let Some(time) = &self.timestamp {
                            turn.append(time.as_str());
                        }
                        turn.append(":");
                        turn.append(last.as_str());
                        proof {
                            if self.timestamp is None {
                                assert("token_count:"@ + Seq::<char>::empty() =~= "token_count:"@);
                            }
                        }
                        Some(turn)
                    },
                    None => None,
                },
            },
            None => None,
        }
    }

    /// The error a turn completed with, where it has no message of its own.
    pub fn unexplained_error(&self) -> (r: Option<&JsonValue>)
        ensures
            viewed(r) == self@.unexplained_error(),
    {
        if !self.is_event("turn_complete") {
            return None;
        }
        match &self.payload {
            Some(payload) => {
                let error = payload.at("error");
                if error.is_null() || error.at("message").as_str().is_some() {
                    None
                } else {
                    Some(error)
                }
            },
            None => None,
        }
    }

    /// Why the turn this event ends failed or stopped, when it did; an error without a message of
    /// its own is told as `error_text`.
    pub fn failure_told(&self, error_text: String) -> (r: Option<(StopReason, String)>)
        ensures
            failure_view(r) == self@.failure_told(error_text@),
    {
        let payload = match &self.payload {
            Some(payload) => payload,
            None => {
                return None;
            },
        };
        if self.is_event("turn_aborted") {
            return match payload.at("reason").as_str() {
                Some(reason) => Some((StopReason::Aborted, reason.to_owned())),
                None => Some((StopReason::Aborted, "aborted".to_owned())),
            };
        }
        if self.is_event("turn_complete") {
            let error = payload.at("error");
            if error.is_null() {
                return None;
            }
            return match error.at("message").as_str() {
                Some(message) => Some((StopReason::Error, message.to_owned())),
                None => Some((StopReason::Error, error_text)),
            };
        }
        None
    }

    /// Why the turn this event ends failed or stopped, when it did.
    pub fn failure(&self) -> (r: Option<(StopReason, String)>)
        ensures
            failure_view(r) == self@.failure(),
    {
        let error_text = match self.unexplained_error() {
            Some(error) => error.to_text(),
            None => String::new(),
        };
        self.failure_told(error_text)
    }

    /// Whether this `user` message is context the harness injected (AGENTS.md, the environment,
    /// skills, notifications) rather than a user turn: any of its texts is a contextual fragment.
    pub fn is_contextual(&self) -> (r: bool)
        ensures
            r == self@.is_contextual(),
    {
        let content = match &self.payload {
            Some(payload) => payload.at("content"),
            None => {
                return false;
            },
        };
        match content {
            JsonValue::Array(blocks) => {
                let ghost all = items_view(blocks@);
                let mut i: usize = 0;
                while i < blocks.len()
                    invariant
                        i <= blocks@.len(),
                        all == items_view(blocks@),
                        all.len() == blocks@.len(),
                        self@.is_contextual() == any_contextual_block(all),
                        forall|j: int| 0 <= j < i ==> !is_contextual_block(#[trigger] all[j]),
                    decreases blocks.len() - i,
                {
                    let block = &blocks[i];
                    assert(all[i as int] == block@);
                    if is_text(block.at("type").as_str(), "input_text") {
                        if let Some(text) = block.at("text").as_str() {
                            if is_contextual_user_text(text) {
                                assert(is_contextual_block(all[i as int]));
                                return true;
                            }
                        }
                    }
                    i += 1;
                }
                false
            },
            _ => false,
        }
    }

    /// The line's own id. Usage lines carry none, but name the model call they account for; keyed
    /// on nothing, two in one millisecond would share a synthetic id and one would be dropped.
    ///
    /// The per-record `id` (ctc_/ctco_/msg_...) comes before `call_id`: a tool call and its output
    /// share one `call_id`, so keying identity on it would collide the two records. Older rollouts
    /// have no per-record id at all, so an output falling back to `call_id` is suffixed to keep it
    /// distinct from its call.
    pub fn id(&self) -> (r: Option<MessageId>)
        requires
            self@.new_tokens_fit(),
        ensures
            viewed(r) == self@.id(),
    {
        if self.is_usage_record() || self.is_token_count() {
            return match self.usage_turn() {
                Some(turn) => Some(MessageId(joined(turn.as_str(), "#usage"))),
                None => None,
            };
        }
        if self.is_copied_meta() {
            return None;
        }
        let payload = match &self.payload {
            Some(payload) => payload,
            None => {
                return None;
            },
        };
        if let Some(id) = payload.at("id").as_str() {
            return Some(MessageId(id.to_owned()));
        }
        match payload.at("call_id").as_str() {
            Some(call) => {
                let kind = payload.text_at("type");
                if text::ends_with(kind.as_str(), "_output") {
                    Some(MessageId(joined(call, "#out")))
                } else {
                    Some(MessageId(call.to_owned()))
                }
            },
            None => None,
        }
    }

    /// Who a line is from by its role as written.
    fn written_role(&self) -> (r: Role)
        ensures
            r@ == self@.written_role(),
    {
        let raw = match &self.payload {
            Some(payload) => match payload.at("role").as_str() {
                Some(role) => role,
                None => self.kind.as_str(),
            },
            None => self.kind.as_str(),
        };
        if text::same(raw, "user") {
            if self.is_contextual() {
                Role::System
            } else {
                Role::User
            }
        } else if text::same(raw, "assistant") {
            Role::Assistant
        } else if text::same(raw, "system") || text::same(raw, "developer") {
            Role::System
        } else if text::same(raw, "tool") {
            Role::Tool
        } else {
            Role::Other(raw.to_owned())
        }
    }

    /// Who the line is from.
    pub fn role(&self) -> (r: Role)
        ensures
            r@ == self@.role(),
    {
        if text::same(self.kind.as_str(), "compacted") {
            return Role::System;
        }
        if self.failure().is_some() {
            return Role::Assistant;
        }
        match self.payload_type() {
            Some(kind) => if text::same(kind, "function_call") || text::same(
                kind,
                "custom_tool_call",
            ) || text::same(kind, "local_shell_call") || text::same(kind, "web_search_call")
                || text::same(kind, "tool_search_call") || text::same(kind, "reasoning") {
                Role::Assistant
            } else if text::same(kind, "function_call_output") || text::same(
                kind,
                "custom_tool_call_output",
            ) || text::same(kind, "tool_search_output") {
                Role::Tool
            } else {
                self.written_role()
            },
            None => self.written_role(),
        }
    }

    /// When the line was written.
    pub fn timestamp(&self) -> (r: Option<Timestamp>)
        ensures
            r == self@.written(),
    {
        match &self.timestamp {
            Some(text) => parse_rfc3339(text.as_str()),
            None => None,
        }
    }

    /// What a message's `content` comes to.
    fn message_content(content: &JsonValue) -> (r: Vec<Content>)
        ensures
            contents(r@) == message_pieces(content@),
    {
        match content {
            JsonValue::Array(blocks) => {
                let mut out: Vec<Content> = Vec::new();
                let mut i: usize = 0;
                while i < blocks.len()
                    invariant
                        i <= blocks@.len(),
                        out@.len() == i,
                        forall|j: int|
                            0 <= j < i ==> (#[trigger] out@[j])@ == block_content(blocks@[j]@),
                    decreases blocks.len() - i,
                {
                    out.push(Self::block(&blocks[i]));
                    i += 1;
                }
                assert(contents(out@) =~= items_view(blocks@).map_values(
                    |block: Json| block_content(block),
                ));
                out
            },
            JsonValue::String(text) => pieces_of(Some(Content::Text(text.clone()))),
            _ => pieces_of(None),
        }
    }

    /// What an item of the conversation comes to.
    fn item_content(payload: &JsonValue) -> (r: Vec<Content>)
        ensures
            contents(r@) == item_pieces(payload@),
    {
        let kind = match payload.at("type").as_str() {
            Some(kind) => kind,
            None => {
                return Self::message_content(payload.at("content"));
            },
        };
        if text::same(kind, "reasoning") {
            // Do not retain summaries, encrypted reasoning, or other reasoning payloads.
            pieces_of(Some(Content::ReasoningSummary { tokens: None }))
        } else if text::same(kind, "function_call") {
            call(
                ToolCallId(payload.text_at("call_id")),
                payload.text_at("name"),
                payload.at("arguments"),
            )
        } else if text::same(kind, "custom_tool_call") {
            call(
                ToolCallId(payload.text_at("call_id")),
                payload.text_at("name"),
                payload.at("input"),
            )
        } else if text::same(kind, "local_shell_call") {
            // Its output comes back as a `function_call_output` under the same `call_id`.
            call(call_or_own(payload), "local_shell".to_owned(), payload.at("action"))
        } else if text::same(kind, "web_search_call") {
            // Run by the API: the results feed the model directly and no output item follows.
            call(
                ToolCallId(payload.text_at("id")),
                "web_search".to_owned(),
                payload.at("action"),
            )
        } else if text::same(kind, "tool_search_call") {
            call(call_or_own(payload), "tool_search".to_owned(), payload.at("arguments"))
        } else if text::same(kind, "function_call_output") || text::same(
            kind,
            "custom_tool_call_output",
        ) {
            let output = payload.at("output");
            result(ToolCallId(payload.text_at("call_id")), output, codex_output_failed(output))
        } else if text::same(kind, "tool_search_output") {
            let error = match payload.at("status").as_str() {
                Some(status) => !text::same(status, "completed"),
                None => false,
            };
            result(call_or_own(payload), payload.at("tools"), error)
        } else {
            Self::message_content(payload.at("content"))
        }
    }

    /// What the line says.
    pub fn content(&self) -> (r: Vec<Content>)
        ensures
            contents(r@) == self@.pieces(),
    {
        let payload = match &self.payload {
            Some(payload) => payload,
            None => {
                return pieces_of(None);
            },
        };
        if text::same(self.kind.as_str(), "compacted") {
            let summary = payload.text_at("message");
            return if summary.as_str().is_empty() {
                pieces_of(None)
            } else {
                pieces_of(Some(Content::Summary(summary)))
            };
        }
        if let Some((_, why)) = self.failure() {
            return pieces_of(Some(Content::Error(why)));
        }
        if text::same(self.kind.as_str(), "event_msg") || text::same(
            self.kind.as_str(),
            "session_meta",
        ) {
            return pieces_of(None);
        }
        Self::item_content(payload)
    }

    /// The model of a turn.
    pub fn model(&self) -> (r: Option<String>)
        ensures
            viewed(r) == self@.own_text("model"@),
    {
        if self.is_copied_meta() {
            return None;
        }
        match &self.payload {
            Some(payload) => owned(payload.at("model").as_str()),
            None => None,
        }
    }

    /// The tokens that the model call of a usage line used.
    pub fn usage(&self) -> (r: Option<Usage>)
        requires
            self@.new_tokens_fit(),
        ensures
            r == self@.usage(),
    {
        if self.is_usage_record() {
            return match &self.payload {
                Some(payload) => usage_of(payload.at("usage")),
                None => None,
            };
        }
        match self.token_count_info() {
            Some(info) => usage_of(info.at("last_token_usage")),
            None => None,
        }
    }

    /// Why the turn this event ends failed or stopped.
    pub fn stop_reason(&self) -> (r: Option<StopReason>)
        ensures
            viewed(r) == self@.stop_reason(),
    {
        match self.failure() {
            Some((reason, _)) => Some(reason),
            None => None,
        }
    }

    /// Where the session was at.
    pub fn cwd(&self) -> (r: Option<String>)
        ensures
            viewed(r) == self@.own_text("cwd"@),
    {
        if self.is_copied_meta() {
            return None;
        }
        match &self.payload {
            Some(payload) => owned(payload.at("cwd").as_str()),
            None => None,
        }
    }

    /// The git branch the session was on.
    pub fn git_branch(&self) -> (r: Option<String>)
        ensures
            viewed(r) == self@.git_branch(),
    {
        match self.own_meta() {
            Some(meta) => owned(meta.at("git").at("branch").as_str()),
            None => None,
        }
    }

    /// The thread a fork or subagent started from (`forked_from_id`, `parent_thread_id`, and
    /// before those `source.subagent.thread_spawn.parent_thread_id`).
    pub fn parent_session(&self) -> (r: Option<SessionId>)
        ensures
            viewed(r) == self@.parent_session(),
    {
        let meta = match self.own_meta() {
            Some(meta) => meta,
            None => {
                return None;
            },
        };
        if let Some(parent) = meta.at("forked_from_id").as_str() {
            return Some(SessionId(parent.to_owned()));
        }
        if let Some(parent) = meta.at("parent_thread_id").as_str() {
            return Some(SessionId(parent.to_owned()));
        }
        match meta.at("source").at("subagent").at("thread_spawn").at("parent_thread_id").as_str() {
            Some(parent) => Some(SessionId(parent.to_owned())),
            None => None,
        }
    }

    /// Only usage lines name their model call: Codex items carry no response id.
    pub fn turn_id(&self) -> (r: Option<String>)
        requires
            self@.new_tokens_fit(),
        ensures
            viewed(r) == self@.usage_turn(),
    {
        self.usage_turn()
    }
}

} // verus!
