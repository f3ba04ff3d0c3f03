//! What holds of the lines of a `ccode` transcript as a whole.

use vstd::prelude::*;

use crate::ccode::message::{
    block_content, block_piece, block_pieces, is_first_reasoning, is_queued_by_user, joined, media,
    with_reasoning_tokens, CcodeLine,
};
use crate::ccode::stripping::{holds_no_output, law_typed_text_holds_no_output};
use crate::ccode::typed::stripped;
use crate::json::{at, string_of, text_at, Json};
use crate::model::{at_most_one, ContentView, RoleView, StopReasonView};
use crate::text::{begins, trimmed_start};

verus! {

/// A line that the harness wrote itself was made by no model: it names none, tells no usage and
/// belongs to no model call. Where it stands for a failed API call, the turn ended in an error, all
/// it says is that error, and an error class that it names is not lost.
pub proof fn law_synthetic_lines(line: CcodeLine)
    requires
        line.is_synthetic(),
    ensures
        line.model() is None,
        line.usage() is None,
        line.turn_id() is None,
        line.is_api_error() ==> line.stop_reason() == Some(StopReasonView::Error),
        line.is_api_error() && line.queued_command() is None && line.is_compact_summary != Some(
            true,
        ) ==> line.pieces().len() <= 1 && forall|i: int|
            0 <= i < line.pieces().len() ==> (#[trigger] line.pieces()[i]) is Error,
        line.is_api_error() && line.queued_command() is None && line.is_compact_summary != Some(
            true,
        ) && line.message is Some && (line.error matches Some(error) && string_of(error) is Some)
            ==> line.pieces().len() == 1,
{
}

/// Every line of one model call names that call, whatever else the lines say, and so does a copy
/// of the line in a fork: the call is told by the message alone.
pub proof fn law_call_is_told_by_the_message(a: CcodeLine, b: CcodeLine)
    requires
        a.message == b.message,
        !a.is_api_error(),
        !b.is_api_error(),
    ensures
        a.turn_id() == b.turn_id(),
        a.model() == b.model(),
        a.usage() == b.usage(),
{
}

/// What the harness writes into the user's side of the conversation is never a user turn: neither
/// a compaction summary, nor a line it injected, nor what it queued itself.
pub proof fn law_injected_lines_are_no_user_turns(line: CcodeLine)
    ensures
        line.kind != "attachment"@ && line.is_compact_summary == Some(true) ==> line.role()
            == RoleView::System,
        line.kind != "attachment"@ && line.raw_role() == "user"@ && line.is_injected()
            && !line.is_typed_local_command() ==> line.role() == RoleView::System,
        line.kind == "attachment"@ && (line.queued_command() matches Some(queued)
            && !is_queued_by_user(queued)) ==> line.role()
            == RoleView::System,
        line.kind == "attachment"@ && line.queued_command() is None ==> line.role()
            == RoleView::Other(line.kind),
{
}

/// The queue's own bookkeeping is never a user turn: it is not read a second time beside the
/// attachment that delivers the prompt.
pub proof fn law_queue_operations_are_no_user_turns(line: CcodeLine)
    requires
        line.kind == "queue-operation"@,
        line.message is None,
    ensures
        line.role() != RoleView::User,
{
    reveal_strlit("queue-operation");
    reveal_strlit("attachment");
    reveal_strlit("system");
    reveal_strlit("user");
    assert("queue-operation"@.len() == 15 && "attachment"@.len() == 10 && "system"@.len() == 6
        && "user"@.len() == 4);
}

/// Of pasted media nothing is kept but what it was: two blocks that differ in nothing else come to
/// the same, and what they come to holds no data.
pub proof fn law_media_drops_its_bytes(a: Json, b: Json)
    requires
        string_of(at(a, "type"@)) == Some("image"@) || string_of(at(a, "type"@)) == Some(
            "document"@,
        ),
        at(a, "type"@) == at(b, "type"@),
        at(at(a, "source"@), "type"@) == at(at(b, "source"@), "type"@),
        at(at(a, "source"@), "media_type"@) == at(at(b, "source"@), "media_type"@),
    ensures
        block_content(a) == block_content(b),
        block_content(a) matches ContentView::Other(kept) && {
            &&& at(kept, "type"@) == at(a, "type"@)
            &&& at(at(kept, "source"@), "type"@) == at(at(a, "source"@), "type"@)
            &&& at(at(kept, "source"@), "media_type"@) == at(at(a, "source"@), "media_type"@)
            &&& at(at(kept, "source"@), "data"@) == Json::Null
        },
{
    reveal_strlit("image");
    reveal_strlit("document");
    reveal_strlit("text");
    reveal_strlit("thinking");
    reveal_strlit("redacted_thinking");
    reveal_strlit("tool_use");
    reveal_strlit("tool_result");
    reveal_strlit("type");
    reveal_strlit("source");
    reveal_strlit("media_type");
    reveal_strlit("data");
    let kind = string_of(at(a, "type"@))->0;
    assert(kind[0] == 'i' || kind[0] == 'd');
    assert("text"@[0] == 't' && "thinking"@[0] == 't' && "redacted_thinking"@[0] == 'r'
        && "tool_use"@[0] == 't' && "tool_result"@[0] == 't');
    assert("type"@.len() == 4 && "source"@.len() == 6 && "media_type"@.len() == 10);
    assert("data"@.len() == 4 && "data"@[0] == 'd' && "type"@[0] == 't');
    assert(block_content(a) == ContentView::Other(media(kind, at(a, "source"@))));
}

/// Whether a block holds the model's reasoning.
pub open spec fn is_thinking(block: Json) -> bool {
    ||| string_of(at(block, "type"@)) == Some("thinking"@)
    ||| string_of(at(block, "type"@)) == Some("redacted_thinking"@)
}

/// How many of the blocks hold the model's reasoning.
pub open spec fn thinking_blocks(blocks: Seq<Json>) -> nat
    decreases blocks.len(),
{
    if blocks.len() == 0 {
        0
    } else {
        thinking_blocks(blocks.drop_last()) + if is_thinking(blocks.last()) {
            1nat
        } else {
            0nat
        }
    }
}

/// How many of the pieces are reasoning markers.
pub open spec fn reasoning_markers(pieces: Seq<ContentView>) -> nat
    decreases pieces.len(),
{
    if pieces.len() == 0 {
        0
    } else {
        reasoning_markers(pieces.drop_last()) + if pieces.last() is ReasoningSummary {
            1nat
        } else {
            0nat
        }
    }
}

/// A block comes to a reasoning marker exactly where it holds reasoning.
proof fn lemma_block_piece(block: Json, user_typed: bool)
    ensures
        is_thinking(block) ==> block_piece(block, user_typed) == Some(
            ContentView::ReasoningSummary { tokens: None },
        ),
        !is_thinking(block) ==> !(block_piece(block, user_typed) matches Some(piece)
            && piece is ReasoningSummary),
{
    reveal_strlit("text");
    reveal_strlit("thinking");
    reveal_strlit("redacted_thinking");
    assert("text"@.len() == 4 && "thinking"@.len() == 8 && "redacted_thinking"@.len() == 17);
}

/// Blocks come to one reasoning marker each that holds reasoning, none of which tells tokens.
proof fn lemma_markers(blocks: Seq<Json>, user_typed: bool)
    ensures
        reasoning_markers(block_pieces(blocks, user_typed)) == thinking_blocks(blocks),
        forall|i: int|
            0 <= i < block_pieces(blocks, user_typed).len() && (#[trigger] block_pieces(
                blocks,
                user_typed,
            )[i]) is ReasoningSummary ==> block_pieces(blocks, user_typed)[i]
                == (ContentView::ReasoningSummary { tokens: None }),
    decreases blocks.len(),
{
    if blocks.len() > 0 {
        lemma_markers(blocks.drop_last(), user_typed);
        lemma_block_piece(blocks.last(), user_typed);
        let before = block_pieces(blocks.drop_last(), user_typed);
        match block_piece(blocks.last(), user_typed) {
            Some(piece) => {
                assert((before + seq![piece]).drop_last() =~= before);
                assert((before + seq![piece]).last() == piece);
            },
            None => {
                assert(before + at_most_one(None) =~= before);
            },
        }
    }
}

/// One piece in place of another of its sort leaves the count of reasoning markers.
proof fn lemma_update(pieces: Seq<ContentView>, i: int, piece: ContentView)
    requires
        0 <= i < pieces.len(),
        pieces[i] is ReasoningSummary,
        piece is ReasoningSummary,
    ensures
        reasoning_markers(pieces.update(i, piece)) == reasoning_markers(pieces),
    decreases pieces.len(),
{
    let new = pieces.update(i, piece);
    if i < pieces.len() - 1 {
        lemma_update(pieces.drop_last(), i, piece);
        assert(new.drop_last() =~= pieces.drop_last().update(i, piece));
    } else {
        assert(new.drop_last() =~= pieces.drop_last());
    }
}

/// A line has one reasoning marker for each block of reasoning, so a call split over several lines
/// is marked on the lines that did the thinking only; the first marker tells the call's thinking
/// tokens, the others tell none, and of the reasoning itself nothing is kept.
pub proof fn law_reasoning_markers(line: CcodeLine, blocks: Seq<Json>)
    requires
        line.queued_command() is None,
        line.raw_content() == Some(Json::Array(blocks)),
        line.is_compact_summary != Some(true),
        !line.is_api_error(),
    ensures
        reasoning_markers(line.pieces()) == thinking_blocks(blocks),
        forall|i: int| #[trigger]
            is_first_reasoning(line.pieces(), i) ==> line.pieces()[i]
                == (ContentView::ReasoningSummary { tokens: line.thinking_tokens() }),
        forall|i: int|
            0 <= i < line.pieces().len() && (#[trigger] line.pieces()[i]) is ReasoningSummary
                && !is_first_reasoning(line.pieces(), i) ==> line.pieces()[i]
                == (ContentView::ReasoningSummary { tokens: None }),
{
    let user_typed = line.raw_role() != "assistant"@;
    let raw = block_pieces(blocks, user_typed);
    lemma_markers(blocks, user_typed);
    let pieces = with_reasoning_tokens(raw, line.thinking_tokens());
    assert(line.pieces() == pieces);
    if exists|i: int| is_first_reasoning(raw, i) {
        let first = choose|i: int| is_first_reasoning(raw, i);
        let marker = ContentView::ReasoningSummary { tokens: line.thinking_tokens() };
        lemma_update(raw, first, marker);
        assert forall|i: int| #[trigger] is_first_reasoning(pieces, i) implies i == first by {
            if i < first {
                assert(pieces[i] == raw[i]);
            } else if i > first {
                assert(pieces[first] is ReasoningSummary);
            }
        }
        assert(is_first_reasoning(pieces, first)) by {
            assert forall|j: int| 0 <= j < first implies !((#[trigger] pieces[j])
                is ReasoningSummary) by {
                assert(pieces[j] == raw[j]);
            }
        }
    }
}

/// A compaction summary is kept as one: it is the only record of the conversation it replaced.
pub proof fn law_compaction_summaries_are_kept(line: CcodeLine)
    requires
        line.queued_command() is None,
        line.is_compact_summary == Some(true),
        line.raw_content() is Some,
    ensures
        line.raw_content()->0 matches Json::Str(text) ==> line.pieces() == seq![
            ContentView::Summary(text),
        ],
        forall|i: int|
            0 <= i < line.pieces().len() ==> (#[trigger] line.pieces()[i]) is Summary,
        line.pieces().len() == 0 <==> joined(line.raw_content()->0) is None,
{
}

/// An interrupt ends the turn, and the line that records it is no user turn.
pub proof fn law_interrupts_end_the_turn(line: CcodeLine)
    requires
        line.is_interrupt(),
        !line.is_api_error(),
    ensures
        line.stop_reason() == Some(StopReasonView::Aborted),
        line.kind != "attachment"@ ==> line.role() == RoleView::System,
{
    reveal_strlit("[Request interrupted by user");
    reveal_strlit("<command-");
    let shown = trimmed_start(line.first_text()->0);
    assert(shown.subrange(0, "[Request interrupted by user"@.len() as int)[0] == '[');
    if begins(shown, "<command-"@) {
        assert(shown.subrange(0, "<command-"@.len() as int)[0] == '<');
    }
}

/// A tool result names the call it answers as the call itself does.
pub proof fn law_results_answer_their_call(call: Json, result: Json)
    requires
        string_of(at(call, "type"@)) == Some("tool_use"@),
        string_of(at(result, "type"@)) == Some("tool_result"@),
        at(call, "id"@) == at(result, "tool_use_id"@),
    ensures
        block_content(call) matches ContentView::ToolUse { id, .. } && block_content(result)
            matches ContentView::ToolResult { call, .. } && id == call,
{
    reveal_strlit("text");
    reveal_strlit("thinking");
    reveal_strlit("redacted_thinking");
    reveal_strlit("tool_use");
    reveal_strlit("tool_result");
    assert("text"@.len() == 4 && "thinking"@.len() == 8 && "redacted_thinking"@.len() == 17
        && "tool_use"@.len() == 8 && "tool_result"@.len() == 11);
    assert("thinking"@[1] == 'h' && "tool_use"@[1] == 'o');
}

/// Whether cutting command output out of the texts that a line says leaves none of it, that is,
/// whether no cut puts an opening tag together.
pub open spec fn texts_leave_no_output(raw: Json) -> bool {
    match raw {
        Json::Str(text) => holds_no_output(stripped(text)),
        Json::Array(blocks) => forall|i: int|
            0 <= i < blocks.len() ==> holds_no_output(
                stripped(text_at(#[trigger] blocks[i], "text"@)),
            ),
        _ => true,
    }
}

/// What blocks come to holds no command output where none is left of their texts.
proof fn lemma_blocks_hold_no_output(blocks: Seq<Json>)
    requires
        forall|i: int|
            0 <= i < blocks.len() ==> holds_no_output(
                stripped(text_at(#[trigger] blocks[i], "text"@)),
            ),
    ensures
        forall|i: int|
            0 <= i < block_pieces(blocks, true).len() ==> (#[trigger] block_pieces(blocks, true)[i]
                matches ContentView::Text(text) ==> holds_no_output(text)),
    decreases blocks.len(),
{
    if blocks.len() > 0 {
        let before = blocks.drop_last();
        assert forall|i: int| 0 <= i < before.len() implies holds_no_output(
            stripped(text_at(#[trigger] before[i], "text"@)),
        ) by {
            assert(before[i] == blocks[i]);
        }
        lemma_blocks_hold_no_output(before);
        assert(blocks.last() == blocks[blocks.len() - 1]);
        law_typed_text_holds_no_output(text_at(blocks.last(), "text"@));
        let piece = block_piece(blocks.last(), true);
        let pieces = block_pieces(blocks, true);
        assert(pieces == block_pieces(before, true) + at_most_one(piece));
        assert forall|i: int| 0 <= i < pieces.len() implies (#[trigger] pieces[i]
            matches ContentView::Text(text) ==> holds_no_output(text)) by {
            if i < block_pieces(before, true).len() {
                assert(pieces[i] == block_pieces(before, true)[i]);
            } else {
                assert(Some(pieces[i]) == piece);
            }
        }
    }
}

/// Command output never leaves the reader: what a line of the user's side says holds none of it,
/// as long as no cut puts an opening tag together.
pub proof fn law_command_output_never_leaves(line: CcodeLine, raw: Json)
    requires
        line.queued_command() is None,
        line.raw_content() == Some(raw),
        line.is_compact_summary != Some(true),
        !line.is_api_error(),
        line.raw_role() != "assistant"@,
        texts_leave_no_output(raw),
    ensures
        forall|i: int|
            0 <= i < line.pieces().len() ==> (#[trigger] line.pieces()[i]
                matches ContentView::Text(text) ==> holds_no_output(text)),
{
    let pieces = line.raw_pieces(raw);
    match raw {
        Json::Str(text) => {
            law_typed_text_holds_no_output(text);
        },
        Json::Array(blocks) => {
            lemma_blocks_hold_no_output(blocks);
        },
        _ => {},
    }
    assert forall|i: int| 0 <= i < pieces.len() implies (#[trigger] pieces[i]
        matches ContentView::Text(text) ==> holds_no_output(text)) by {}
    assert forall|i: int| 0 <= i < line.pieces().len() implies (#[trigger] line.pieces()[i]
        matches ContentView::Text(text) ==> holds_no_output(text)) by {
        if line.pieces()[i] is Text {
            assert(line.pieces()[i] == pieces[i]);
        }
    }
}

/// A prompt that was queued holds no command output either, as long as no cut puts an opening tag
/// together.
pub proof fn law_queued_prompts_hold_no_output(line: CcodeLine, prompt: Seq<char>)
    requires
        line.queued_command() is Some,
        at(line.queued_command()->0, "prompt"@) == Json::Str(prompt),
        holds_no_output(stripped(prompt)),
    ensures
        forall|i: int|
            0 <= i < line.pieces().len() ==> (#[trigger] line.pieces()[i]
                matches ContentView::Text(text) && holds_no_output(text)),
{
    law_typed_text_holds_no_output(prompt);
}

} // verus!
