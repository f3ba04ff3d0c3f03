//! What each sort of line of a `ccode` transcript is read as, told by what the line holds.

use vstd::prelude::*;

use crate::ccode::message::{
    block_content, block_piece, block_pieces, block_texts, is_first_reasoning, joined,
    stop_reason_of, with_reasoning_tokens, CcodeLine, CcodeMessage,
};
use crate::ccode::typed::typed;
use crate::clock::rfc3339;
use crate::json::{at, count_sum, member, Json};
use crate::model::{at_most_one, viewed, ContentView, RoleView, StopReasonView};
use crate::text::{begins, trimmed_start};

verus! {

/// The types of block are not the same text.
proof fn lemma_block_types()
    ensures
        "text"@.len() == 4,
        "thinking"@.len() == 8,
        "redacted_thinking"@.len() == 17,
        "tool_use"@.len() == 8,
        "tool_result"@.len() == 11,
        "image"@.len() == 5,
        "document"@.len() == 8,
        "thinking"@ != "tool_use"@,
        "thinking"@ != "document"@,
        "tool_use"@ != "document"@,
{
    reveal_strlit("text");
    reveal_strlit("thinking");
    reveal_strlit("redacted_thinking");
    reveal_strlit("tool_use");
    reveal_strlit("tool_result");
    reveal_strlit("image");
    reveal_strlit("document");
    assert("thinking"@[1] == 'h' && "tool_use"@[1] == 'o' && "document"@[0] == 'd');
    assert("thinking"@[0] == 't' && "tool_use"@[0] == 't');
}

/// A text block says its text, and nothing where it has none.
pub proof fn law_text_blocks(block: Json, text: Seq<char>)
    requires
        at(block, "type"@) == Json::Str("text"@),
    ensures
        at(block, "text"@) == Json::Str(text) ==> block_content(block) == ContentView::Text(text),
        !(at(block, "text"@) is Str) ==> block_content(block) == ContentView::Text(Seq::empty()),
{
}

/// A tool call keeps its id, its tool's name and its input as they are written.
pub proof fn law_tool_use_blocks(block: Json, id: Seq<char>, name: Seq<char>, input: Json)
    requires
        at(block, "type"@) == Json::Str("tool_use"@),
        at(block, "id"@) == Json::Str(id),
        at(block, "name"@) == Json::Str(name),
        at(block, "input"@) == input,
    ensures
        block_content(block) == (ContentView::ToolUse { id, name, input }),
{
    lemma_block_types();
}

/// A tool result keeps the call that it answers and what came back as they are written, and is a
/// failure only where it says so.
pub proof fn law_tool_result_blocks(block: Json, call: Seq<char>, output: Json)
    requires
        at(block, "type"@) == Json::Str("tool_result"@),
        at(block, "tool_use_id"@) == Json::Str(call),
        at(block, "content"@) == output,
    ensures
        block_content(block) == (ContentView::ToolResult {
            call,
            output,
            error: at(block, "is_error"@) == Json::Bool(true),
        }),
{
    lemma_block_types();
}

/// A block of reasoning leaves a marker, pasted media what it was, and any other block is kept as
/// it is written.
pub proof fn law_other_blocks(block: Json)
    ensures
        at(block, "type"@) == Json::Str("thinking"@) || at(block, "type"@) == Json::Str(
            "redacted_thinking"@,
        ) ==> block_content(block) == (ContentView::ReasoningSummary { tokens: None }),
        !(at(block, "type"@) is Str) ==> block_content(block) == ContentView::Other(block),
        at(block, "type"@) matches Json::Str(kind) ==> {
            ||| kind == "text"@
            ||| kind == "thinking"@
            ||| kind == "redacted_thinking"@
            ||| kind == "tool_use"@
            ||| kind == "tool_result"@
            ||| kind == "image"@
            ||| kind == "document"@
            ||| block_content(block) == ContentView::Other(block)
        },
        at(block, "type"@) == Json::Str("image"@) || at(block, "type"@) == Json::Str("document"@)
            ==> block_content(block) is Other,
{
    lemma_block_types();
}

/// A line's content is that of its message, else its own; its role as written is that of its
/// message, else its type; the text that it opens with is its content, or that of the first block.
pub proof fn law_raw_lines(line: CcodeLine)
    ensures
        line.message is None ==> line.raw_content() == line.content && line.raw_role() == line.kind,
        line.message matches Some(message) ==> {
            &&& member(message, "content"@) matches Some(content) ==> line.raw_content() == Some(
                content,
            )
            &&& member(message, "content"@) is None ==> line.raw_content() == line.content
            &&& at(message, "role"@) matches Json::Str(role) ==> line.raw_role() == role
            &&& !(at(message, "role"@) is Str) ==> line.raw_role() == line.kind
        },
        line.raw_content() matches Some(Json::Str(text)) ==> line.first_text() == Some(text),
        line.raw_content() matches Some(Json::Array(blocks)) ==> {
            &&& blocks.len() == 0 ==> line.first_text() is None
            &&& blocks.len() > 0 ==> match at(blocks[0], "text"@) {
                Json::Str(text) => line.first_text() == Some(text),
                _ => line.first_text() is None,
            }
        },
        line.raw_content() is None ==> line.first_text() is None,
{
}

/// The roles and types of line that the laws tell apart are not the same text.
proof fn lemma_roles()
    ensures
        "user"@ != "assistant"@,
        "user"@ != "system"@,
        "user"@ != "tool"@,
        "user"@ != "attachment"@,
        "assistant"@ != "system"@,
        "assistant"@ != "tool"@,
        "system"@ != "tool"@,
        "system"@ != "attachment"@,
{
    reveal_strlit("user");
    reveal_strlit("assistant");
    reveal_strlit("system");
    reveal_strlit("tool");
    reveal_strlit("attachment");
    assert("user"@.len() == 4 && "assistant"@.len() == 9 && "system"@.len() == 6 && "tool"@.len()
        == 4 && "attachment"@.len() == 10);
    assert("user"@[0] == 'u' && "tool"@[0] == 't');
}

/// Whether a line is a `local_command` line of the system that records the command that was typed.
pub open spec fn records_command(line: CcodeLine) -> bool {
    &&& line.kind == "system"@
    &&& line.subtype == Some("local_command"@)
    &&& (line.first_text() matches Some(text) && begins(trimmed_start(text), "<command-"@))
}

/// Whether a line is neither an attachment, nor a compaction summary, nor the record of a command.
pub open spec fn is_plain_line(line: CcodeLine) -> bool {
    &&& line.kind != "attachment"@
    &&& line.is_compact_summary != Some(true)
    &&& !records_command(line)
}

/// What the harness writes into the user's side of the conversation is the system's, by each of the
/// texts that it writes there: command output, the caveat on it, a background task's notification,
/// a tick, an interrupt.
pub proof fn law_injected_texts_are_the_systems(line: CcodeLine, text: Seq<char>)
    requires
        is_plain_line(line),
        line.raw_role() == "user"@,
        line.first_text() == Some(text),
        ({
            let shown = trimmed_start(text);
            ||| begins(shown, "<local-command-stdout>"@)
            ||| begins(shown, "<local-command-stderr>"@)
            ||| begins(shown, "<bash-stdout>"@)
            ||| begins(shown, "<bash-stderr>"@)
            ||| begins(shown, "<local-command-caveat>"@)
            ||| begins(shown, "<task-notification>"@)
            ||| begins(shown, "<tick>"@)
            ||| begins(shown, "[Request interrupted by user"@)
        }),
    ensures
        line.role() == RoleView::System,
{
}

/// A line marked as the harness's own, or submitted by anyone but the user, is the system's.
pub proof fn law_harness_lines_are_the_systems(line: CcodeLine)
    requires
        is_plain_line(line),
        line.raw_role() == "user"@,
        line.is_meta == Some(true) || (line.origin matches Some(origin) && !(origin is Null) && at(
            origin,
            "kind"@,
        ) != Json::Str("human"@)),
    ensures
        line.role() == RoleView::System,
{
}

/// A user-role line is the user's turn where nothing speaks against it: it is not marked as the
/// harness's own, no one but the user submitted it, and its text is none that the harness writes.
pub proof fn law_user_turns(line: CcodeLine)
    requires
        is_plain_line(line),
        line.raw_role() == "user"@,
        line.is_meta != Some(true),
        line.origin matches Some(origin) ==> origin is Null || at(origin, "kind"@) == Json::Str(
            "human"@,
        ),
        line.first_text() matches Some(text) ==> {
            let shown = trimmed_start(text);
            &&& !begins(shown, "<local-command-stdout>"@)
            &&& !begins(shown, "<local-command-stderr>"@)
            &&& !begins(shown, "<bash-stdout>"@)
            &&& !begins(shown, "<bash-stderr>"@)
            &&& !begins(shown, "<local-command-caveat>"@)
            &&& !begins(shown, "<task-notification>"@)
            &&& !begins(shown, "<tick>"@)
            &&& !begins(shown, "[Request interrupted by user"@)
        },
    ensures
        line.role() == RoleView::User,
{
}

/// Any other role is taken as it is written.
pub proof fn law_written_roles(line: CcodeLine)
    requires
        is_plain_line(line),
        line.raw_role() != "user"@,
    ensures
        line.raw_role() == "assistant"@ ==> line.role() == RoleView::Assistant,
        line.raw_role() == "system"@ ==> line.role() == RoleView::System,
        line.raw_role() == "tool"@ ==> line.role() == RoleView::Tool,
        line.raw_role() != "assistant"@ && line.raw_role() != "system"@ && line.raw_role()
            != "tool"@ ==> line.role() == RoleView::Other(line.raw_role()),
{
    lemma_roles();
}

/// A compaction summary is the system's; a `local_command` line is the user's where it records the
/// command that was typed, and else the system's, as any line that the system wrote.
pub proof fn law_system_records(line: CcodeLine)
    requires
        line.kind != "attachment"@,
    ensures
        line.is_compact_summary == Some(true) ==> line.role() == RoleView::System,
        line.is_compact_summary != Some(true) && records_command(line) ==> line.role()
            == RoleView::User,
        line.is_compact_summary != Some(true) && line.kind == "system"@ && line.message is None
            && !records_command(line) ==> line.role() == RoleView::System,
{
    lemma_roles();
}

/// A queued prompt is the user's exactly where it is not marked as the harness's own, its mode is
/// that of a prompt or none, and no one but the user submitted it; any other attachment is
/// nobody's.
pub proof fn law_attachments(line: CcodeLine, attachment: Json)
    requires
        line.kind == "attachment"@,
        line.attachment == Some(attachment),
    ensures
        at(attachment, "type"@) != Json::Str("queued_command"@) ==> line.role() == RoleView::Other(
            "attachment"@,
        ),
        at(attachment, "type"@) == Json::Str("queued_command"@) ==> line.role() == (if {
            &&& at(attachment, "isMeta"@) != Json::Bool(true)
            &&& (at(attachment, "commandMode"@) is Null || at(attachment, "commandMode"@)
                == Json::Str("prompt"@))
            &&& (at(attachment, "origin"@) is Null || at(at(attachment, "origin"@), "kind"@)
                == Json::Str("human"@))
        } {
            RoleView::User
        } else {
            RoleView::System
        }),
{
}

/// The API's reasons are told apart: each of the five has its own, and any other is kept by its
/// name, so no two names have the same reason.
pub proof fn law_stop_reasons(raw: Seq<char>, other: Seq<char>)
    ensures
        stop_reason_of("end_turn"@) == StopReasonView::EndTurn,
        stop_reason_of("max_tokens"@) == StopReasonView::MaxTokens,
        stop_reason_of("tool_use"@) == StopReasonView::ToolUse,
        stop_reason_of("stop_sequence"@) == StopReasonView::StopSequence,
        stop_reason_of("refusal"@) == StopReasonView::Refusal,
        raw != "end_turn"@ && raw != "max_tokens"@ && raw != "tool_use"@ && raw
            != "stop_sequence"@ && raw != "refusal"@ ==> stop_reason_of(raw)
            == StopReasonView::Other(raw),
        stop_reason_of(raw) == stop_reason_of(other) ==> raw == other,
{
    reveal_strlit("end_turn");
    reveal_strlit("max_tokens");
    reveal_strlit("tool_use");
    reveal_strlit("stop_sequence");
    reveal_strlit("refusal");
    assert("end_turn"@.len() == 8 && "max_tokens"@.len() == 10 && "tool_use"@.len() == 8
        && "stop_sequence"@.len() == 13 && "refusal"@.len() == 7);
    assert("end_turn"@[0] == 'e' && "tool_use"@[0] == 't');
}

/// A line of a model tells the reason that its message names; an interrupt in the user's words, and
/// a failed call, come before that.
pub proof fn law_lines_tell_why_they_stop(line: CcodeLine)
    ensures
        line.is_api_error_message == Some(true) ==> line.stop_reason() == Some(
            StopReasonView::Error,
        ),
        line.is_api_error_message != Some(true) && line.raw_role() != "user"@
            ==> match line.message {
            Some(message) => match at(message, "stop_reason"@) {
                Json::Str(raw) => line.stop_reason() == Some(stop_reason_of(raw)),
                _ => line.stop_reason() is None,
            },
            None => line.stop_reason() is None,
        },
        line.is_api_error_message != Some(true) && line.raw_role() == "user"@ && (line.first_text()
            matches Some(text) && begins(trimmed_start(text), "[Request interrupted by user"@))
            ==> line.stop_reason() == Some(StopReasonView::Aborted),
        line.is_api_error_message != Some(true) && !(line.first_text() matches Some(text) && begins(
            trimmed_start(text),
            "[Request interrupted by user"@,
        )) && line.message is None ==> line.stop_reason() is None,
        line.is_api_error_message != Some(true) && !(line.first_text() matches Some(text) && begins(
            trimmed_start(text),
            "[Request interrupted by user"@,
        )) && line.message is Some ==> match at(line.message->0, "stop_reason"@) {
            Json::Str(raw) => line.stop_reason() == Some(stop_reason_of(raw)),
            _ => line.stop_reason() is None,
        },
{
}

/// A line that a model wrote names the model and the call of its message, and tells the usage that
/// its message holds, each count under its own name and whatever else the usage holds.
pub proof fn law_model_lines(line: CcodeLine, message: Json)
    requires
        line.message == Some(message),
        line.is_api_error_message != Some(true),
        at(message, "model"@) != Json::Str("<synthetic>"@),
    ensures
        match at(message, "model"@) {
            Json::Str(model) => line.model() == Some(model),
            _ => line.model() is None,
        },
        match at(message, "id"@) {
            Json::Str(id) => line.turn_id() == Some(id),
            _ => line.turn_id() is None,
        },
        line.usage() is None <==> at(message, "usage"@) is Null,
        line.usage() matches Some(told) ==> {
            let usage = at(message, "usage"@);
            &&& match at(usage, "input_tokens"@) {
                Json::Count(n) => told.input == Some(n),
                _ => told.input is None,
            }
            &&& match at(usage, "output_tokens"@) {
                Json::Count(n) => told.output == Some(n),
                _ => told.output is None,
            }
            &&& match at(usage, "cache_read_input_tokens"@) {
                Json::Count(n) => told.cache_read == Some(n),
                _ => told.cache_read is None,
            }
            &&& at(usage, "cache_creation_input_tokens"@) matches Json::Count(n)
                ==> told.cache_write == Some(n)
        },
{
}

/// Where the total of cache writes is left out, what was written is the sum of the counts of its
/// split, and nothing is told where the split holds no count.
pub proof fn law_cache_writes_are_summed(line: CcodeLine, message: Json)
    requires
        line.message == Some(message),
        line.is_api_error_message != Some(true),
        at(message, "model"@) != Json::Str("<synthetic>"@),
        !(at(message, "usage"@) is Null),
        !(at(at(message, "usage"@), "cache_creation_input_tokens"@) is Count),
        line.cache_split_fits(),
    ensures
        ({
            let split = at(at(message, "usage"@), "cache_creation"@);
            let told = line.usage()->0.cache_write;
            &&& !(split is Object) ==> told is None
            &&& split matches Json::Object(counts) ==> {
                &&& told is Some <==> exists|name: Seq<char>| #[trigger]
                    counts.dom().contains(name) && counts[name] is Count
                &&& told matches Some(total) ==> total == count_sum(counts)
            }
        }),
{
    let split = at(at(message, "usage"@), "cache_creation"@);
    if let Json::Object(counts) = split {
        if exists|name: Seq<char>| #[trigger] counts.dom().contains(name) && counts[name] is Count {
            let name = choose|name: Seq<char>| #[trigger]
                counts.dom().contains(name) && counts[name] is Count;
            assert(counts.dom().contains(name));
        }
    }
}

/// A line that the harness wrote itself names no model and no call, and tells no usage: one of a
/// failed call, or one that names `<synthetic>` as its model.
pub proof fn law_synthetic_model(line: CcodeLine)
    requires
        line.is_api_error_message == Some(true) || (line.message matches Some(message) && at(
            message,
            "model"@,
        ) == Json::Str("<synthetic>"@)),
    ensures
        line.model() is None,
        line.turn_id() is None,
        line.usage() is None,
{
}

/// A line names what came before it and where it came from: its parent, else its logical parent;
/// the session it was forked from, else its own; the user's title, else the generated one, else
/// that of a summary.
pub proof fn law_links(line: CcodeLine)
    ensures
        line.parent_uuid is Some ==> line.parent_id() == line.parent_uuid,
        line.parent_uuid is None ==> line.parent_id() == line.logical_parent_uuid,
        match line.forked_from {
            Some(origin) => match at(origin, "sessionId"@) {
                Json::Str(session) => line.parent_session() == Some(session),
                _ => line.parent_session() == line.session_id,
            },
            None => line.parent_session() == line.session_id,
        },
        line.custom_title is Some ==> line.title() == line.custom_title,
        line.custom_title is None && line.ai_title is Some ==> line.title() == line.ai_title,
        line.custom_title is None && line.ai_title is None ==> match line.summary {
            Some(Json::Str(summary)) => line.title() == (if line.kind == "summary"@ {
                Some(summary)
            } else {
                None
            }),
            _ => line.title() is None,
        },
{
}

/// Whether a line says what its content says: it delivers no queued prompt, and is neither a
/// compaction summary nor a failed call.
pub open spec fn says_its_content(line: CcodeLine) -> bool {
    &&& (line.attachment matches Some(attachment) ==> at(attachment, "type"@) != Json::Str(
        "queued_command"@,
    ))
    &&& line.is_compact_summary != Some(true)
    &&& line.is_api_error_message != Some(true)
}

/// A text of the model is kept as it is; any other is what the user typed of it, and nothing where
/// nothing was typed. Content that is neither a text nor a list says nothing.
pub proof fn law_plain_texts(line: CcodeLine)
    requires
        says_its_content(line),
    ensures
        line.raw_content() matches Some(Json::Str(text)) ==> {
            &&& line.raw_role() == "assistant"@ ==> line.pieces() == seq![ContentView::Text(text)]
            &&& line.raw_role() != "assistant"@ ==> match typed(text) {
                Some(said) => line.pieces() == seq![ContentView::Text(said)],
                None => line.pieces().len() == 0,
            }
        },
        line.raw_content() is None ==> line.pieces().len() == 0,
        line.raw_content() matches Some(raw) ==> raw is Str || raw is Array || line.pieces().len()
            == 0,
        line.raw_content() == Some(Json::Array(Seq::empty())) ==> line.pieces().len() == 0,
{
    lemma_no_marker(Seq::empty(), line.thinking_tokens());
    if let Some(Json::Str(text)) = line.raw_content() {
        lemma_no_marker(line.raw_pieces(Json::Str(text)), line.thinking_tokens());
    }
}

/// Pieces without a reasoning marker stay as they are.
proof fn lemma_no_marker(pieces: Seq<ContentView>, tokens: Option<u64>)
    requires
        forall|i: int| 0 <= i < pieces.len() ==> !((#[trigger] pieces[i]) is ReasoningSummary),
    ensures
        with_reasoning_tokens(pieces, tokens) == pieces,
{
}

/// Whether one of the pieces is a reasoning marker.
pub open spec fn has_marker(pieces: Seq<ContentView>) -> bool {
    exists|i: int| 0 <= i < pieces.len() && (#[trigger] pieces[i]) is ReasoningSummary
}

/// One piece more is one piece more with the tokens told; where it is the first marker it gets
/// them.
proof fn lemma_one_piece_more(pieces: Seq<ContentView>, piece: ContentView, tokens: Option<u64>)
    ensures
        ({
            let told = with_reasoning_tokens(pieces, tokens);
            let longer = with_reasoning_tokens(pieces.push(piece), tokens);
            &&& has_marker(told) == has_marker(pieces)
            &&& longer == told.push(
                if piece is ReasoningSummary && !has_marker(pieces) {
                    ContentView::ReasoningSummary { tokens }
                } else {
                    piece
                },
            )
        }),
{
    let all = pieces.push(piece);
    let n = pieces.len() as int;
    if has_marker(pieces) {
        let some = choose|i: int|
            0 <= i < pieces.len() && (#[trigger] pieces[i]) is ReasoningSummary;
        lemma_first_marker(pieces, some);
        let first = choose|i: int| is_first_reasoning(pieces, i);
        assert forall|j: int| 0 <= j < first implies !((#[trigger] all[j]) is ReasoningSummary) by {
            assert(all[j] == pieces[j]);
        }
        assert(all[first] == pieces[first]);
        assert(is_first_reasoning(all, first));
        let first_of_all = choose|i: int| is_first_reasoning(all, i);
        assert(first_of_all == first) by {
            assert(all[first_of_all] is ReasoningSummary && all[first] is ReasoningSummary);
        }
        let marker = ContentView::ReasoningSummary { tokens };
        assert(all.update(first, marker) =~= pieces.update(first, marker).push(piece));
        assert(pieces.update(first, marker)[first] is ReasoningSummary);
    } else {
        assert(!(exists|i: int| is_first_reasoning(pieces, i)));
        if piece is ReasoningSummary {
            assert forall|j: int| 0 <= j < n implies !((#[trigger] all[j]) is ReasoningSummary) by {
                assert(all[j] == pieces[j]);
            }
            assert(is_first_reasoning(all, n));
            let first_of_all = choose|i: int| is_first_reasoning(all, i);
            assert(first_of_all == n) by {
                assert(all[first_of_all] is ReasoningSummary);
            }
            assert(all.update(n, ContentView::ReasoningSummary { tokens }) =~= pieces.push(
                ContentView::ReasoningSummary { tokens },
            ));
        } else {
            assert forall|j: int| 0 <= j < all.len() implies !((#[trigger] all[j])
                is ReasoningSummary) by {
                if j < n {
                    assert(all[j] == pieces[j]);
                }
            }
        }
    }
}

/// Where there is a marker there is a first one.
proof fn lemma_first_marker(pieces: Seq<ContentView>, i: int)
    requires
        0 <= i < pieces.len(),
        pieces[i] is ReasoningSummary,
    ensures
        exists|first: int| is_first_reasoning(pieces, first),
    decreases i,
{
    if !is_first_reasoning(pieces, i) {
        let j = choose|j: int| 0 <= j < i && (#[trigger] pieces[j]) is ReasoningSummary;
        lemma_first_marker(pieces, j);
    }
}

/// One block more says one piece more, at the end and with the rest unchanged: a text block what it
/// says, of a line that is not the model's only what the user typed of it; a block of reasoning a
/// marker, which tells the call's thinking tokens where it is the first; any other what it comes
/// to.
pub proof fn law_one_block_more(line: CcodeLine, longer: CcodeLine, blocks: Seq<Json>, block: Json)
    requires
        says_its_content(line),
        says_its_content(longer),
        line.raw_content() == Some(Json::Array(blocks)),
        longer.raw_content() == Some(Json::Array(blocks.push(block))),
        line.raw_role() == longer.raw_role(),
        line.thinking_tokens() == longer.thinking_tokens(),
    ensures
        at(block, "type"@) == Json::Str("text"@) ==> {
            let text = match at(block, "text"@) {
                Json::Str(text) => text,
                _ => Seq::empty(),
            };
            &&& line.raw_role() == "assistant"@ ==> longer.pieces() == line.pieces().push(
                ContentView::Text(text),
            )
            &&& line.raw_role() != "assistant"@ ==> match typed(text) {
                Some(said) => longer.pieces() == line.pieces().push(ContentView::Text(said)),
                None => longer.pieces() == line.pieces(),
            }
        },
        at(block, "type"@) == Json::Str("thinking"@) || at(block, "type"@) == Json::Str(
            "redacted_thinking"@,
        ) ==> longer.pieces() == line.pieces().push(
            ContentView::ReasoningSummary {
                tokens: if has_marker(line.pieces()) {
                    None
                } else {
                    line.thinking_tokens()
                },
            },
        ),
        at(block, "type"@) != Json::Str("text"@) && at(block, "type"@) != Json::Str("thinking"@)
            && at(block, "type"@) != Json::Str("redacted_thinking"@) ==> longer.pieces()
            == line.pieces().push(block_content(block)),
{
    lemma_block_types();
    let typed_side = line.raw_role() != "assistant"@;
    let tokens = line.thinking_tokens();
    let before = block_pieces(blocks, typed_side);
    assert(blocks.push(block).drop_last() =~= blocks);
    let piece = block_piece(block, typed_side);
    match piece {
        Some(piece) => {
            assert(before + at_most_one(Some(piece)) =~= before.push(piece));
            lemma_one_piece_more(before, piece, tokens);
        },
        None => {
            assert(before + at_most_one(None) =~= before);
        },
    }
}

/// The call's thinking tokens are those that its usage tells in detail.
pub proof fn law_thinking_tokens(line: CcodeLine, message: Json)
    requires
        line.message == Some(message),
    ensures
        match at(at(at(message, "usage"@), "output_tokens_details"@), "thinking_tokens"@) {
            Json::Count(n) => line.thinking_tokens() == Some(n),
            _ => line.thinking_tokens() is None,
        },
{
}

/// A queued prompt says what the user typed of it; queued blocks are kept block by block.
pub proof fn law_queued_prompts(line: CcodeLine, queued: Json)
    requires
        line.attachment == Some(queued),
        at(queued, "type"@) == Json::Str("queued_command"@),
    ensures
        at(queued, "prompt"@) matches Json::Str(text) ==> match typed(text) {
            Some(said) => line.pieces() == seq![ContentView::Text(said)],
            None => line.pieces().len() == 0,
        },
        at(queued, "prompt"@) matches Json::Array(blocks) ==> {
            &&& line.pieces().len() == blocks.len()
            &&& forall|i: int|
                0 <= i < blocks.len() ==> #[trigger] line.pieces()[i] == block_content(blocks[i])
        },
        !(at(queued, "prompt"@) is Str) && !(at(queued, "prompt"@) is Array) ==> line.pieces().len()
            == 0,
{
}

/// The texts of a list are joined in order, a line break between any two; a block without a text
/// adds nothing, and a plain text is itself.
pub proof fn law_texts_are_joined(blocks: Seq<Json>, block: Json, text: Seq<char>)
    ensures
        joined(Json::Str(text)) == Some(text),
        joined(Json::Null) is None,
        joined(Json::Array(Seq::empty())) is None,
        !(at(block, "text"@) is Str) ==> joined(Json::Array(blocks.push(block))) == joined(
            Json::Array(blocks),
        ),
        at(block, "text"@) == Json::Str(text) ==> match joined(Json::Array(blocks)) {
            Some(before) => joined(Json::Array(blocks.push(block))) == Some(before + "\n"@ + text),
            None => joined(Json::Array(blocks.push(block))) == Some(text),
        },
{
    assert(blocks.push(block).drop_last() =~= blocks);
    let before = block_texts(blocks);
    assert(before.push(text).drop_last() =~= before);
}

/// A failed call that has a message and no content still tells its error class; any other line
/// without content says nothing.
pub proof fn law_lines_without_content(line: CcodeLine)
    requires
        line.attachment matches Some(attachment) ==> at(attachment, "type"@) != Json::Str(
            "queued_command"@,
        ),
        line.raw_content() is None,
    ensures
        line.is_api_error_message != Some(true) || line.is_compact_summary == Some(true)
            || line.message is None ==> line.pieces().len() == 0,
        line.is_api_error_message == Some(true) && line.is_compact_summary != Some(true)
            && line.message is Some ==> match line.error {
            Some(Json::Str(class)) => line.pieces() == seq![ContentView::Error(class)],
            _ => line.pieces().len() == 0,
        },
{
}

/// A line without a message names no model and no call, and tells neither usage nor thinking
/// tokens; an attachment that is not there is nobody's.
pub proof fn law_lines_without_a_part(line: CcodeLine)
    ensures
        line.message is None ==> {
            &&& line.model() is None
            &&& line.turn_id() is None
            &&& line.usage() is None
            &&& line.thinking_tokens() is None
        },
        line.kind == "attachment"@ && line.attachment is None ==> line.role() == RoleView::Other(
            "attachment"@,
        ),
{
}

/// A compaction summary says the texts that it holds as a summary, a failed call as an error; a
/// failed call without a text tells its error class.
pub proof fn law_summaries_and_errors(line: CcodeLine, raw: Json)
    requires
        line.attachment matches Some(attachment) ==> at(attachment, "type"@) != Json::Str(
            "queued_command"@,
        ),
        line.raw_content() == Some(raw),
    ensures
        line.is_compact_summary == Some(true) ==> match joined(raw) {
            Some(text) => line.pieces() == seq![ContentView::Summary(text)],
            None => line.pieces().len() == 0,
        },
        line.is_compact_summary != Some(true) && line.is_api_error_message == Some(true)
            ==> match joined(raw) {
            Some(text) => line.pieces() == seq![ContentView::Error(text)],
            None => match line.error {
                Some(Json::Str(class)) => line.pieces() == seq![ContentView::Error(class)],
                _ => line.pieces().len() == 0,
            },
        },
{
}

/// A line was written when its time stamp says, and at no known time without one.
pub proof fn law_times(line: CcodeLine)
    ensures
        line.timestamp matches Some(text) ==> line.written() == rfc3339(text),
        line.timestamp is None ==> line.written() is None,
{
}

/// The usage of a line can be told unless the split of its cache writes has to be summed and its
/// sum does not fit.
pub proof fn law_usage_can_be_told(line: CcodeLine)
    ensures
        line.cache_split_fits() <==> !(line.is_api_error_message != Some(true) && (line.message
            matches Some(message) && at(message, "model"@) != Json::Str("<synthetic>"@) && !(at(
            at(message, "usage"@),
            "cache_creation_input_tokens"@,
        ) is Count) && (at(at(message, "usage"@), "cache_creation"@) matches Json::Object(counts)
            && count_sum(counts) > u64::MAX))),
{
}

/// A message of the library stands for a line with the same fields.
pub proof fn law_messages_are_viewed(message: CcodeMessage)
    ensures
        ({
            let line = message@;
            &&& line.kind == message.kind@
            &&& line.subtype == viewed(message.subtype)
            &&& line.uuid == viewed(message.uuid)
            &&& line.timestamp == viewed(message.timestamp)
            &&& line.message == viewed(message.message)
            &&& line.content == viewed(message.content)
            &&& line.cwd == viewed(message.cwd)
            &&& line.git_branch == viewed(message.git_branch)
            &&& line.ai_title == viewed(message.ai_title)
            &&& line.custom_title == viewed(message.custom_title)
            &&& line.summary == viewed(message.summary)
            &&& line.parent_uuid == viewed(message.parent_uuid)
            &&& line.logical_parent_uuid == viewed(message.logical_parent_uuid)
            &&& line.session_id == viewed(message.session_id)
            &&& line.forked_from == viewed(message.forked_from)
            &&& line.attachment == viewed(message.attachment)
            &&& line.origin == viewed(message.origin)
            &&& line.is_meta == message.is_meta
            &&& line.is_compact_summary == message.is_compact_summary
            &&& line.is_api_error_message == message.is_api_error_message
            &&& line.error == viewed(message.error)
        }),
{
}

} // verus!
