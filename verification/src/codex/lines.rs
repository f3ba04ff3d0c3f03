//! What each sort of line of a Codex rollout is read as, told by what the line holds.

use vstd::prelude::*;

use crate::clock::rfc3339;
use crate::codex::contextual::is_contextual;
use crate::codex::laws::{lemma_item_kinds, lemma_kinds};
use crate::codex::message::{
    any_contextual_block, block_content, is_contextual_block, item_pieces, CodexLine, CodexMessage,
};
use crate::codex::output::output_fails;
use crate::codex::usage::{key_of, token_usage};
use crate::json::{at, Json};
use crate::model::{viewed, ContentView, RoleView, StopReasonView};
use crate::render::json_text;
use crate::text::ends;

verus! {

/// Whether a payload is of this type.
pub open spec fn is_of_type(payload: Json, kind: Seq<char>) -> bool {
    at(payload, "type"@) == Json::Str(kind)
}

/// The text of a member, empty where it is none.
pub open spec fn told(payload: Json, name: Seq<char>) -> Seq<char> {
    match at(payload, name) {
        Json::Str(text) => text,
        _ => Seq::empty(),
    }
}

/// A call of a function or of a custom tool keeps the id that it goes by, its tool's name and its
/// input as they are written.
pub proof fn law_tool_calls(payload: Json)
    ensures
        is_of_type(payload, "function_call"@) ==> item_pieces(payload) == seq![
            ContentView::ToolUse {
                id: told(payload, "call_id"@),
                name: told(payload, "name"@),
                input: at(payload, "arguments"@),
            },
        ],
        is_of_type(payload, "custom_tool_call"@) ==> item_pieces(payload) == seq![
            ContentView::ToolUse {
                id: told(payload, "call_id"@),
                name: told(payload, "name"@),
                input: at(payload, "input"@),
            },
        ],
{
    lemma_item_kinds();
}

/// Calls of the shell, of a web search and of a tool search are tool calls too, each with what it
/// asks for as its input. They go by their `call_id`, else by their own id, a web search by its own
/// id alone.
pub proof fn law_other_tool_calls(payload: Json)
    ensures
        ({
            let id = if at(payload, "call_id"@) is Str {
                told(payload, "call_id"@)
            } else {
                told(payload, "id"@)
            };
            &&& is_of_type(payload, "local_shell_call"@) ==> item_pieces(payload) == seq![
                ContentView::ToolUse { id, name: "local_shell"@, input: at(payload, "action"@) },
            ]
            &&& is_of_type(payload, "tool_search_call"@) ==> item_pieces(payload) == seq![
                ContentView::ToolUse { id, name: "tool_search"@, input: at(payload, "arguments"@) },
            ]
            &&& is_of_type(payload, "web_search_call"@) ==> item_pieces(payload) == seq![
                ContentView::ToolUse {
                    id: told(payload, "id"@),
                    name: "web_search"@,
                    input: at(payload, "action"@),
                },
            ]
        }),
{
    lemma_item_kinds();
}

/// What came back from a call of a function or a custom tool carries the value of the payload's
/// `output` unchanged, answers the call by its id, and is a failure where that output reports one.
pub proof fn law_tool_outputs(payload: Json, output: Json)
    requires
        is_of_type(payload, "function_call_output"@) || is_of_type(
            payload,
            "custom_tool_call_output"@,
        ),
        at(payload, "output"@) == output,
    ensures
        item_pieces(payload) == seq![
            ContentView::ToolResult {
                call: told(payload, "call_id"@),
                output,
                error: output_fails(output),
            },
        ],
{
    lemma_item_kinds();
}

/// What came back from a tool search carries the tools found, and is a failure where its status is
/// told and is not that it completed.
pub proof fn law_tool_search_outputs(payload: Json)
    requires
        is_of_type(payload, "tool_search_output"@),
    ensures
        item_pieces(payload) == seq![
            ContentView::ToolResult {
                call: if at(payload, "call_id"@) is Str {
                    told(payload, "call_id"@)
                } else {
                    told(payload, "id"@)
                },
                output: at(payload, "tools"@),
                error: at(payload, "status"@) is Str && told(payload, "status"@) != "completed"@,
            },
        ],
{
    lemma_item_kinds();
}

/// Whether a payload is of a type that tells who made it.
pub open spec fn is_typed_item(payload: Json) -> bool {
    ||| is_of_type(payload, "function_call"@)
    ||| is_of_type(payload, "custom_tool_call"@)
    ||| is_of_type(payload, "local_shell_call"@)
    ||| is_of_type(payload, "web_search_call"@)
    ||| is_of_type(payload, "tool_search_call"@)
    ||| is_of_type(payload, "reasoning"@)
    ||| is_of_type(payload, "function_call_output"@)
    ||| is_of_type(payload, "custom_tool_call_output"@)
    ||| is_of_type(payload, "tool_search_output"@)
}

/// A message, or any other item of no type of its own, says its content: block by block and in
/// order, or the text that it is. Text blocks say their text, and any other block is kept as it is
/// written.
pub proof fn law_messages(payload: Json, block: Json)
    ensures
        !is_typed_item(payload) ==> {
            &&& at(payload, "content"@) matches Json::Array(blocks) ==> {
                &&& item_pieces(payload).len() == blocks.len()
                &&& forall|i: int|
                    0 <= i < blocks.len() ==> #[trigger] item_pieces(payload)[i] == block_content(
                        blocks[i],
                    )
            }
            &&& at(payload, "content"@) matches Json::Str(text) ==> item_pieces(payload) == seq![
                ContentView::Text(text),
            ]
            &&& !(at(payload, "content"@) is Array) && !(at(payload, "content"@) is Str)
                ==> item_pieces(payload).len() == 0
        },
        is_of_type(block, "input_text"@) || is_of_type(block, "output_text"@) || is_of_type(
            block,
            "text"@,
        ) ==> block_content(block) == ContentView::Text(told(block, "text"@)),
        !is_of_type(block, "input_text"@) && !is_of_type(block, "output_text"@) && !is_of_type(
            block,
            "text"@,
        ) ==> block_content(block) == ContentView::Other(block),
{
    lemma_item_kinds();
}

/// A line of the conversation says what its item comes to, whatever its type; events and session
/// descriptions say nothing of their own, and neither does a line without a payload.
pub proof fn law_lines_say_their_item(line: CodexLine)
    ensures
        line.payload is None ==> line.pieces().len() == 0,
        line.payload is Some && line.kind != "compacted"@ && line.kind != "event_msg"@ && line.kind
            != "session_meta"@ ==> line.pieces() == item_pieces(line.payload->0),
        line.kind == "session_meta"@ ==> line.pieces().len() == 0,
        line.kind == "event_msg"@ && line.payload is Some && !is_of_type(
            line.payload->0,
            "turn_aborted"@,
        ) && !is_of_type(line.payload->0, "turn_complete"@) ==> line.pieces().len() == 0,
{
    lemma_kinds();
}

/// A compaction summary is kept as one, and is the system's; an empty one says nothing.
pub proof fn law_compactions(line: CodexLine)
    requires
        line.kind == "compacted"@,
    ensures
        line.role() == RoleView::System,
        line.payload matches Some(payload) ==> match at(payload, "message"@) {
            Json::Str(summary) => if summary.len() > 0 {
                line.pieces() == seq![ContentView::Summary(summary)]
            } else {
                line.pieces().len() == 0
            },
            _ => line.pieces().len() == 0,
        },
{
}

/// Whoever made an item is who its line is from: by what it comes to, a tool call and reasoning are
/// the assistant's, and a tool result is the tool's.
pub proof fn law_items_tell_who_made_them(line: CodexLine, payload: Json)
    requires
        line.kind != "compacted"@,
        line.payload == Some(payload),
    ensures
        item_pieces(payload).len() > 0 && (item_pieces(payload)[0] is ToolUse || item_pieces(
            payload,
        )[0] is ReasoningSummary) ==> line.role() == RoleView::Assistant,
        item_pieces(payload).len() > 0 && item_pieces(payload)[0] is ToolResult ==> line.role()
            == RoleView::Tool,
{
    lemma_item_kinds();
    lemma_event_types();
    if item_pieces(payload).len() > 0 {
        if let Json::Array(blocks) = at(payload, "content"@) {
            if blocks.len() > 0 {
                law_messages(payload, blocks[0]);
            }
        }
    }
}

/// The types of event and of item are not the same text.
proof fn lemma_event_types()
    ensures
        "turn_aborted"@.len() == 12,
        "turn_complete"@.len() == 13,
        "token_count"@.len() == 11,
        "turn_complete"@ != "function_call"@,
{
    reveal_strlit("turn_aborted");
    reveal_strlit("turn_complete");
    reveal_strlit("token_count");
    reveal_strlit("function_call");
    assert("turn_complete"@[0] == 't' && "function_call"@[0] == 'f');
}

/// Each type of item has its maker: calls and reasoning are the assistant's, outputs the tool's.
pub proof fn law_item_types_have_makers(line: CodexLine, payload: Json)
    requires
        line.kind != "compacted"@,
        line.payload == Some(payload),
    ensures
        is_of_type(payload, "function_call"@) || is_of_type(payload, "custom_tool_call"@)
            || is_of_type(payload, "local_shell_call"@) || is_of_type(payload, "web_search_call"@)
            || is_of_type(payload, "tool_search_call"@) || is_of_type(payload, "reasoning"@)
            ==> line.role() == RoleView::Assistant,
        is_of_type(payload, "function_call_output"@) || is_of_type(
            payload,
            "custom_tool_call_output"@,
        ) || is_of_type(payload, "tool_search_output"@) ==> line.role() == RoleView::Tool,
{
    lemma_item_kinds();
    lemma_event_types();
}

/// Whether a line ends a turn that was stopped or failed.
pub open spec fn ends_turn_badly(line: CodexLine, payload: Json) -> bool {
    &&& line.kind == "event_msg"@
    &&& {
        ||| is_of_type(payload, "turn_aborted"@)
        ||| is_of_type(payload, "turn_complete"@) && !(at(payload, "error"@) is Null)
    }
}

/// Any other line is from whom it names: the developer speaks for the system, and a line that names
/// nobody is told by its type. A user's line that holds a text the harness injected is the
/// system's.
pub proof fn law_written_roles(line: CodexLine, payload: Json)
    requires
        line.kind != "compacted"@,
        line.payload == Some(payload),
        !is_typed_item(payload),
        !ends_turn_badly(line, payload),
    ensures
        ({
            let role = if at(payload, "role"@) is Str {
                told(payload, "role"@)
            } else {
                line.kind
            };
            let injected = at(payload, "content"@) matches Json::Array(blocks) && exists|i: int|
                0 <= i < blocks.len() && is_of_type(#[trigger] blocks[i], "input_text"@) && (at(
                    blocks[i],
                    "text"@,
                ) matches Json::Str(text) && is_contextual(text));
            &&& role == "user"@ && injected ==> line.role() == RoleView::System
            &&& role == "user"@ && !injected ==> line.role() == RoleView::User
            &&& role == "assistant"@ ==> line.role() == RoleView::Assistant
            &&& role == "system"@ || role == "developer"@ ==> line.role() == RoleView::System
            &&& role == "tool"@ ==> line.role() == RoleView::Tool
            &&& role != "user"@ && role != "assistant"@ && role != "system"@ && role != "developer"@
                && role != "tool"@ ==> line.role() == RoleView::Other(role)
        }),
{
    lemma_role_names();
    if let Json::Array(blocks) = at(payload, "content"@) {
        if exists|i: int|
            0 <= i < blocks.len() && is_of_type(#[trigger] blocks[i], "input_text"@) && (at(
                blocks[i],
                "text"@,
            ) matches Json::Str(text) && is_contextual(text)) {
            let i = choose|i: int|
                0 <= i < blocks.len() && is_of_type(#[trigger] blocks[i], "input_text"@) && (at(
                    blocks[i],
                    "text"@,
                ) matches Json::Str(text) && is_contextual(text));
            assert(is_contextual_block(blocks[i]));
        }
        if any_contextual_block(blocks) {
            let i = choose|i: int|
                0 <= i < blocks.len() && is_contextual_block(
                    #[trigger] blocks[i],
                );
            assert(is_of_type(blocks[i], "input_text"@));
        }
    }
}

/// A line without a payload is from whom its type names, and tells nothing else.
pub proof fn law_lines_without_payload(line: CodexLine)
    requires
        line.payload is None,
        line.kind != "compacted"@,
    ensures
        line.kind == "user"@ ==> line.role() == RoleView::User,
        line.kind == "assistant"@ ==> line.role() == RoleView::Assistant,
        line.kind == "system"@ || line.kind == "developer"@ ==> line.role() == RoleView::System,
        line.kind == "tool"@ ==> line.role() == RoleView::Tool,
        line.kind != "user"@ && line.kind != "assistant"@ && line.kind != "system"@ && line.kind
            != "developer"@ && line.kind != "tool"@ ==> line.role() == RoleView::Other(line.kind),
        line.id() is None,
        line.usage() is None,
        line.usage_turn() is None,
        line.stop_reason() is None,
        line.git_branch() is None,
        line.parent_session() is None,
{
    lemma_role_names();
}

/// The names of roles are not the same text.
proof fn lemma_role_names()
    ensures
        "user"@ != "assistant"@ && "user"@ != "system"@ && "user"@ != "developer"@ && "user"@
            != "tool"@,
        "assistant"@ != "system"@ && "assistant"@ != "developer"@ && "assistant"@ != "tool"@,
        "system"@ != "tool"@ && "developer"@ != "tool"@,
{
    reveal_strlit("user");
    reveal_strlit("assistant");
    reveal_strlit("system");
    reveal_strlit("developer");
    reveal_strlit("tool");
    assert("user"@.len() == 4 && "assistant"@.len() == 9 && "system"@.len() == 6
        && "developer"@.len() == 9 && "tool"@.len() == 4);
    assert("user"@[0] == 'u' && "tool"@[0] == 't' && "assistant"@[0] == 'a' && "developer"@[0]
        == 'd');
}

/// A turn that was aborted stopped for the reason that it gives, and one that completed with an
/// error failed for that error's message, or else for the error itself as JSON; the line says why.
/// A turn that completed without an error did not fail.
pub proof fn law_ends_of_turns(line: CodexLine, payload: Json)
    requires
        line.kind == "event_msg"@,
        line.payload == Some(payload),
    ensures
        is_of_type(payload, "turn_aborted"@) ==> {
            let why = if at(payload, "reason"@) is Str {
                told(payload, "reason"@)
            } else {
                "aborted"@
            };
            &&& line.stop_reason() == Some(StopReasonView::Aborted)
            &&& line.role() == RoleView::Assistant
            &&& line.pieces() == seq![ContentView::Error(why)]
        },
        is_of_type(payload, "turn_complete"@) && !(at(payload, "error"@) is Null) ==> {
            let error = at(payload, "error"@);
            let why = if at(error, "message"@) is Str {
                told(error, "message"@)
            } else {
                json_text(error)
            };
            &&& line.stop_reason() == Some(StopReasonView::Error)
            &&& line.role() == RoleView::Assistant
            &&& line.pieces() == seq![ContentView::Error(why)]
        },
        is_of_type(payload, "turn_complete"@) && at(payload, "error"@) is Null
            ==> line.stop_reason() is None && line.pieces().len() == 0,
        !is_of_type(payload, "turn_complete"@) && !is_of_type(payload, "turn_aborted"@)
            ==> line.stop_reason() is None,
{
    lemma_kinds();
    lemma_event_types();
}

/// No other line stops a turn.
pub proof fn law_only_events_end_turns(line: CodexLine)
    requires
        line.kind != "event_msg"@,
    ensures
        line.stop_reason() is None,
{
}

/// Whether a line describes a session that is not the one its rollout is of.
pub open spec fn describes_another(line: CodexLine) -> bool {
    &&& line.kind == "session_meta"@
    &&& line.session is Some
    &&& line.payload is Some
    &&& at(line.payload->0, "id"@) is Str
    &&& at(line.payload->0, "id"@) != Json::Str(line.session->0)
}

/// An item's id is its own, else that of its call, with `#out` behind it where it is an output.
pub proof fn law_item_ids(line: CodexLine, payload: Json)
    requires
        line.payload == Some(payload),
        line.kind != "token_usage_record"@,
        !(line.kind == "event_msg"@ && is_of_type(payload, "token_count"@)),
        !describes_another(line),
    ensures
        at(payload, "id"@) matches Json::Str(id) ==> line.id() == Some(id),
        !(at(payload, "id"@) is Str) ==> match at(payload, "call_id"@) {
            Json::Str(call) => line.id() == Some(
                if ends(told(payload, "type"@), "_output"@) {
                    call + "#out"@
                } else {
                    call
                },
            ),
            _ => line.id() is None,
        },
{
}

/// A line tells the model and the directory that its payload names, and a session's own description
/// its branch and the session it started from: the one it was forked from, else its parent thread,
/// else the thread that spawned it.
pub proof fn law_session_context(line: CodexLine, payload: Json)
    requires
        line.payload == Some(payload),
    ensures
        !describes_another(line) ==> {
            &&& at(payload, "model"@) matches Json::Str(model) ==> line.own_text("model"@) == Some(
                model,
            )
            &&& at(payload, "cwd"@) matches Json::Str(cwd) ==> line.own_text("cwd"@) == Some(cwd)
            &&& !(at(payload, "model"@) is Str) ==> line.own_text("model"@) is None
            &&& !(at(payload, "cwd"@) is Str) ==> line.own_text("cwd"@) is None
        },
        describes_another(line) ==> line.own_text("model"@) is None && line.own_text("cwd"@)
            is None && line.id() is None,
        line.kind == "session_meta"@ && !describes_another(line) ==> {
            let spawned = at(
                at(at(at(payload, "source"@), "subagent"@), "thread_spawn"@),
                "parent_thread_id"@,
            );
            &&& match at(at(payload, "git"@), "branch"@) {
                Json::Str(branch) => line.git_branch() == Some(branch),
                _ => line.git_branch() is None,
            }
            &&& match at(payload, "forked_from_id"@) {
                Json::Str(parent) => line.parent_session() == Some(parent),
                _ => match at(payload, "parent_thread_id"@) {
                    Json::Str(parent) => line.parent_session() == Some(parent),
                    _ => match spawned {
                        Json::Str(parent) => line.parent_session() == Some(parent),
                        _ => line.parent_session() is None,
                    },
                },
            }
        },
        line.kind != "session_meta"@ || describes_another(line) ==> line.git_branch() is None
            && line.parent_session() is None,
{
    lemma_kinds();
}

/// A usage record tells the usage that it records, and names the call by its response, else by the
/// thread's total.
pub proof fn law_usage_records(line: CodexLine, payload: Json)
    requires
        line.kind == "token_usage_record"@,
        line.payload == Some(payload),
    ensures
        line.usage() == token_usage(at(payload, "usage"@)),
        told(payload, "response_id"@).len() > 0 ==> line.usage_turn() == Some(
            told(payload, "response_id"@),
        ),
        told(payload, "response_id"@).len() == 0 ==> match key_of(
            at(payload, "thread_token_usage"@),
        ) {
            Some(key) => line.usage_turn() == Some("thread:"@ + key),
            None => line.usage_turn() is None,
        },
        line.usage_turn() matches Some(turn) ==> line.id() == Some(turn + "#usage"@),
{
}

/// A snapshot in a rollout without usage records tells the usage that it newly reports, where it
/// reports input or output, and names the call by the thread's running total, else by its time and
/// what it newly reports.
pub proof fn law_usage_snapshots(line: CodexLine, payload: Json)
    requires
        line.kind == "event_msg"@,
        is_of_type(payload, "token_count"@),
        line.payload == Some(payload),
        !line.usage_recorded,
    ensures
        ({
            let info = at(payload, "info"@);
            let last = at(info, "last_token_usage"@);
            let silent = !(at(last, "input_tokens"@) is Count && at(last, "input_tokens"@)
                != Json::Count(0)) && !(at(last, "output_tokens"@) is Count && at(
                last,
                "output_tokens"@,
            ) != Json::Count(0));
            let time = match line.timestamp {
                Some(time) => time,
                None => Seq::empty(),
            };
            &&& silent ==> line.usage() is None && line.usage_turn() is None && line.id() is None
            &&& !silent ==> line.usage() == token_usage(last)
            &&& !silent ==> match key_of(at(info, "total_token_usage"@)) {
                Some(total) => line.usage_turn() == Some("token_count:"@ + total),
                None => match key_of(last) {
                    Some(key) => line.usage_turn() == Some("token_count:"@ + time + ":"@ + key),
                    None => line.usage_turn() is None,
                },
            }
            &&& line.usage_turn() matches Some(turn) ==> line.id() == Some(turn + "#usage"@)
        }),
{
    lemma_kinds();
}

/// A line was written when its time stamp says, and at no known time without one.
pub proof fn law_times(line: CodexLine)
    ensures
        line.timestamp matches Some(text) ==> line.written() == rfc3339(text),
        line.timestamp is None ==> line.written() is None,
{
}

/// The usage of a line can be told unless it is a snapshot whose newly reported input and output
/// have to be added up and do not fit.
pub proof fn law_usage_can_be_told(line: CodexLine)
    ensures
        line.new_tokens_fit() <==> !(line.kind == "event_msg"@ && !line.usage_recorded && (
        line.payload matches Some(payload) && is_of_type(payload, "token_count"@) && {
            let last = at(at(payload, "info"@), "last_token_usage"@);
            at(last, "input_tokens"@) matches Json::Count(input) && at(last, "output_tokens"@)
                matches Json::Count(output) && input + output > u64::MAX
        })),
{
}

/// A message of the library stands for a line with the same fields, and with what its reader knows.
pub proof fn law_messages_are_viewed(message: CodexMessage)
    ensures
        ({
            let line = message@;
            &&& line.kind == message.kind@
            &&& line.timestamp == viewed(message.timestamp)
            &&& line.payload == viewed(message.payload)
            &&& line.session == viewed(message.context.session)
            &&& line.usage_recorded == message.context.usage_recorded
        }),
{
}

/// No line but a usage record and a snapshot tells usage or names a call, and neither does a
/// snapshot in a rollout that records usage: that has no id either.
pub proof fn law_other_lines_tell_no_usage(line: CodexLine)
    requires
        line.kind != "token_usage_record"@,
        line.kind == "event_msg"@ && (line.payload matches Some(payload) && is_of_type(
            payload,
            "token_count"@,
        )) ==> line.usage_recorded,
    ensures
        line.usage() is None,
        line.usage_turn() is None,
        line.kind == "event_msg"@ && (line.payload matches Some(payload) && is_of_type(
            payload,
            "token_count"@,
        )) ==> line.id() is None,
{
}

/// A usage line that names no call has no id.
pub proof fn law_unnamed_usage_has_no_id(line: CodexLine)
    requires
        line.kind == "token_usage_record"@ || (line.kind == "event_msg"@ && (line.payload
            matches Some(payload) && is_of_type(payload, "token_count"@))),
    ensures
        line.usage_turn() is None ==> line.id() is None,
{
}

} // verus!
