//! What holds of the lines of a Codex rollout as a whole.

use vstd::prelude::*;

use crate::codex::message::{is_model_item, is_tool_output, item_pieces, CodexLine};
use crate::codex::usage::{key_of, law_key_tells_counts, same_counts};
use crate::json::{at, string_of, text_at, Json};
use crate::model::{ContentView, RoleView};
use crate::text::ends;

verus! {

/// The kinds of line that the laws tell apart are not the same text.
pub proof fn lemma_kinds()
    ensures
        "token_usage_record"@ != "event_msg"@,
        "token_usage_record"@ != "session_meta"@,
        "session_meta"@ != "event_msg"@,
        "compacted"@ != "event_msg"@,
        "compacted"@ != "session_meta"@,
{
    reveal_strlit("token_usage_record");
    reveal_strlit("event_msg");
    reveal_strlit("session_meta");
    reveal_strlit("compacted");
    assert("token_usage_record"@.len() == 18);
    assert("event_msg"@.len() == 9);
    assert("session_meta"@.len() == 12);
    assert("compacted"@[0] == 'c');
    assert("event_msg"@[0] == 'e');
    assert("compacted"@.len() == 9);
}

/// A tool call and its output share one call id; where neither has an id of its own, the two lines
/// still have different ids.
pub proof fn law_call_and_output_ids_differ(call: CodexLine, output: CodexLine)
    requires
        call.payload is Some,
        output.payload is Some,
        !call.is_usage_record() && !call.is_token_count() && !call.is_copied_meta(),
        !output.is_usage_record() && !output.is_token_count() && !output.is_copied_meta(),
        string_of(at(call.payload->0, "id"@)) is None,
        string_of(at(output.payload->0, "id"@)) is None,
        string_of(at(call.payload->0, "call_id"@)) is Some,
        string_of(at(call.payload->0, "call_id"@)) == string_of(at(output.payload->0, "call_id"@)),
        !ends(text_at(call.payload->0, "type"@), "_output"@),
        ends(text_at(output.payload->0, "type"@), "_output"@),
    ensures
        call.id() is Some,
        output.id() is Some,
        call.id() != output.id(),
{
    reveal_strlit("#out");
    let id = string_of(at(call.payload->0, "call_id"@))->0;
    assert((id + "#out"@).len() > id.len());
}

/// Only usage lines tell usage or name a model call, a usage line has an id exactly where it names
/// a call, and a snapshot that tells usage always names one.
pub proof fn law_usage_lines_name_calls(line: CodexLine)
    ensures
        line.usage_turn() is Some || line.usage() is Some ==> line.is_usage_record()
            || line.is_token_count(),
        line.is_usage_record() || line.is_token_count() ==> (line.id() is Some
            <==> line.usage_turn() is Some),
        line.is_token_count() && line.usage() is Some ==> line.usage_turn() is Some,
{
    lemma_kinds();
}

/// A snapshot tells no usage, names no call and has no id where the rollout records usage per
/// model call, or where it reports no new tokens.
pub proof fn law_silent_snapshots(line: CodexLine)
    requires
        line.is_token_count(),
        line.usage_recorded || CodexLine::new_tokens(at(line.payload->0, "info"@)) == 0,
    ensures
        line.usage() is None,
        line.usage_turn() is None,
        line.id() is None,
{
    lemma_kinds();
}

/// Two snapshots of running totals name the same call exactly where all counts of the total are
/// the same: a snapshot that is sent again, or copied into a fork under another time, names the
/// call it named before, and another call's names another.
pub proof fn law_snapshots_are_told_by_their_total(a: CodexLine, b: CodexLine)
    requires
        a.is_token_count(),
        b.is_token_count(),
        a.token_count_info() is Some,
        b.token_count_info() is Some,
        at(a.token_count_info()->0, "total_token_usage"@) is Object,
        at(b.token_count_info()->0, "total_token_usage"@) is Object,
    ensures
        a.usage_turn() is Some,
        a.usage_turn() == b.usage_turn() <==> a.id() == b.id(),
        a.usage_turn() == b.usage_turn() <==> same_counts(
            at(a.token_count_info()->0, "total_token_usage"@),
            at(b.token_count_info()->0, "total_token_usage"@),
        ),
{
    lemma_kinds();
    let x = at(a.token_count_info()->0, "total_token_usage"@);
    let y = at(b.token_count_info()->0, "total_token_usage"@);
    law_key_tells_counts(x, y);
    lemma_prefix_cancels("token_count:"@, key_of(x)->0, key_of(y)->0);
    lemma_suffix_cancels("#usage"@, a.usage_turn()->0, b.usage_turn()->0);
}

/// Behind the same text only the same text gives the same whole.
proof fn lemma_prefix_cancels(prefix: Seq<char>, a: Seq<char>, b: Seq<char>)
    ensures
        prefix + a == prefix + b <==> a == b,
{
    let n = prefix.len() as int;
    if prefix + a == prefix + b {
        assert((prefix + a).subrange(n, (prefix + a).len() as int) =~= a);
        assert((prefix + b).subrange(n, (prefix + b).len() as int) =~= b);
    }
}

/// Before the same text only the same text gives the same whole.
proof fn lemma_suffix_cancels(suffix: Seq<char>, a: Seq<char>, b: Seq<char>)
    ensures
        a + suffix == b + suffix <==> a == b,
{
    if a + suffix == b + suffix {
        assert((a + suffix).take((a + suffix).len() - suffix.len()) =~= a);
        assert((b + suffix).take((b + suffix).len() - suffix.len()) =~= b);
    }
}

/// Usage records of different responses name different calls and have different ids; records of
/// the same response the same.
pub proof fn law_records_are_told_by_their_response(a: CodexLine, b: CodexLine)
    requires
        a.is_usage_record(),
        b.is_usage_record(),
        a.payload is Some,
        b.payload is Some,
        text_at(a.payload->0, "response_id"@).len() > 0,
        text_at(b.payload->0, "response_id"@).len() > 0,
    ensures
        a.usage_turn() == Some(text_at(a.payload->0, "response_id"@)),
        a.id() is Some,
        a.id() == b.id() <==> text_at(a.payload->0, "response_id"@) == text_at(
            b.payload->0,
            "response_id"@,
        ),
{
    lemma_suffix_cancels("#usage"@, a.usage_turn()->0, b.usage_turn()->0);
}

/// A `session_meta` copied in from another rollout tells nothing of this session: it has no id,
/// and neither replaces the link to the parent nor the session's context.
pub proof fn law_copied_meta_tells_nothing(line: CodexLine)
    requires
        line.is_copied_meta(),
    ensures
        line.id() is None,
        line.own_text("model"@) is None,
        line.own_text("cwd"@) is None,
        line.git_branch() is None,
        line.parent_session() is None,
        line.pieces() == Seq::<ContentView>::empty(),
{
    lemma_kinds();
}

/// A line is a user turn only where it is written as one and none of its texts was injected by the
/// harness; where one was, such a line is from the system.
pub proof fn law_injected_context_is_no_user_turn(line: CodexLine)
    ensures
        line.role() is User ==> line.raw_role() == "user"@ && !line.is_contextual(),
        line.raw_role() == "user"@ && line.is_contextual() && !line.fails() && (
        line.payload_type() matches Some(kind) ==> !is_model_item(kind) && !is_tool_output(kind))
            ==> line.role() is System,
{
}

/// Of reasoning nothing is kept but that there was some.
pub proof fn law_reasoning_keeps_nothing(a: Json, b: Json)
    requires
        string_of(at(a, "type"@)) == Some("reasoning"@),
        string_of(at(b, "type"@)) == Some("reasoning"@),
    ensures
        item_pieces(a) == item_pieces(b),
        item_pieces(a) == seq![ContentView::ReasoningSummary { tokens: None }],
{
}

/// A turn that failed or was stopped is told once over: the line has a stop reason, is the
/// assistant's, and says why; any other line has no stop reason.
pub proof fn law_failures_are_told(line: CodexLine)
    ensures
        line.stop_reason() is Some <==> line.fails(),
        line.stop_reason() matches Some(reason) ==> {
            &&& reason is Error || reason is Aborted
            &&& line.role() == RoleView::Assistant
            &&& line.pieces().len() == 1
            &&& line.pieces()[0] is Error
            &&& line.usage() is None
        },
{
    lemma_kinds();
    reveal_strlit("turn_aborted");
    reveal_strlit("turn_complete");
    reveal_strlit("token_count");
    assert("turn_aborted"@.len() == 12 && "turn_complete"@.len() == 13 && "token_count"@.len()
        == 11);
}

/// Whether a payload of this type is a tool call whose output comes back under its `call_id`.
pub open spec fn is_answered_call(kind: Seq<char>) -> bool {
    ||| kind == "function_call"@
    ||| kind == "custom_tool_call"@
    ||| kind == "local_shell_call"@
    ||| kind == "tool_search_call"@
}

/// A tool call and the output that carries its `call_id` are linked by their content: the output
/// answers the id that the call goes by.
pub proof fn law_outputs_answer_their_call(call: Json, output: Json)
    requires
        string_of(at(call, "type"@)) matches Some(kind) && is_answered_call(kind),
        string_of(at(output, "type"@)) matches Some(kind) && is_tool_output(kind),
        at(call, "call_id"@) is Str,
        at(call, "call_id"@) == at(output, "call_id"@),
    ensures
        item_pieces(call).len() == 1,
        item_pieces(output).len() == 1,
        item_pieces(call)[0] matches ContentView::ToolUse { id, .. } && item_pieces(output)[0]
            matches ContentView::ToolResult { call, .. } && id == call,
{
    lemma_item_kinds();
}

/// The types of item that the laws tell apart are not the same text.
pub proof fn lemma_item_kinds()
    ensures
        "function_call_output"@.len() == 20,
        "custom_tool_call_output"@.len() == 23,
        "tool_search_output"@.len() == 18,
        "function_call"@.len() == 13,
        "custom_tool_call"@.len() == 16,
        "local_shell_call"@.len() == 16,
        "tool_search_call"@.len() == 16,
        "web_search_call"@.len() == 15,
        "reasoning"@.len() == 9,
        "custom_tool_call"@ != "local_shell_call"@,
        "custom_tool_call"@ != "tool_search_call"@,
        "local_shell_call"@ != "tool_search_call"@,
{
    reveal_strlit("function_call");
    reveal_strlit("custom_tool_call");
    reveal_strlit("local_shell_call");
    reveal_strlit("tool_search_call");
    reveal_strlit("web_search_call");
    reveal_strlit("reasoning");
    reveal_strlit("function_call_output");
    reveal_strlit("custom_tool_call_output");
    reveal_strlit("tool_search_output");
    assert("custom_tool_call"@[0] == 'c' && "local_shell_call"@[0] == 'l' && "tool_search_call"@[0]
        == 't');
}

} // verus!
