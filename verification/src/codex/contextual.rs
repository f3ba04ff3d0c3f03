//! The fragments that Codex injects into the conversation as `user` messages.

use vstd::prelude::*;
use vstd::string::*;

use crate::text;
use crate::text::{after, begins, ends, first_at, is_white_space, matches_at, trimmed};

verus! {

/// Whether two characters are the same but for the case of an ASCII letter.
pub open spec fn same_letter(a: char, b: char) -> bool {
    ||| a == b
    ||| ('A' <= a <= 'Z' && b as u32 == a as u32 + 32)
    ||| ('A' <= b <= 'Z' && a as u32 == b as u32 + 32)
}

/// Whether `pattern`, up to the case of ASCII letters, stands in `text` at position `from`.
pub open spec fn stands_ignoring_case(text: Seq<char>, pattern: Seq<char>, from: int) -> bool {
    &&& 0 <= from
    &&& from + pattern.len() <= text.len()
    &&& forall|i: int| 0 <= i < pattern.len() ==> same_letter(text[from + i], #[trigger] pattern[i])
}

/// Whether `text` begins with `prefix`, up to the case of ASCII letters.
pub open spec fn begins_ignoring_case(text: Seq<char>, prefix: Seq<char>) -> bool {
    stands_ignoring_case(text, prefix, 0)
}

/// Whether `text` ends with `suffix`, up to the case of ASCII letters.
pub open spec fn ends_ignoring_case(text: Seq<char>, suffix: Seq<char>) -> bool {
    stands_ignoring_case(text, suffix, text.len() - suffix.len())
}

/// Whether `text` begins with `start` and ends with `end`, up to the case of ASCII letters.
pub open spec fn is_fragment(text: Seq<char>, start: Seq<char>, end: Seq<char>) -> bool {
    begins_ignoring_case(text, start) && ends_ignoring_case(text, end)
}

/// Whether `text` begins with `<external_KEY>` and ends with `</external_KEY>`.
pub open spec fn is_external(text: Seq<char>) -> bool {
    &&& begins(text, "<external_"@)
    &&& {
        let rest = after(text, "<external_"@.len() as int);
        first_at(rest, ">"@) matches Some(n) && ends(
            text,
            "</external_"@ + rest.take(n) + ">"@,
        )
    }
}

/// Whether `text`, without the white space around it, is a fragment of context that the harness
/// injected: it stands between the start and end markers of one, it begins as one of the warnings
/// that were once injected, or it is an element of an external context.
pub open spec fn is_contextual(text: Seq<char>) -> bool {
    let shown = trimmed(text);
    ||| is_fragment(shown, "# AGENTS.md instructions"@, "</INSTRUCTIONS>"@)
    ||| is_fragment(shown, "<user_instructions>"@, "</user_instructions>"@)
    ||| is_fragment(shown, "<environment_context>"@, "</environment_context>"@)
    ||| is_fragment(
        shown,
        "<agent_message_board_notification>"@,
        "</agent_message_board_notification>"@,
    )
    ||| is_fragment(shown, "<skill>"@, "</skill>"@)
    ||| is_fragment(shown, "<user_shell_command>"@, "</user_shell_command>"@)
    ||| is_fragment(shown, "<turn_aborted>"@, "</turn_aborted>"@)
    ||| is_fragment(shown, "<subagent_notification>"@, "</subagent_notification>"@)
    ||| is_fragment(shown, "<codex_internal_context"@, "</codex_internal_context>"@)
    ||| is_fragment(shown, "<goal_context>"@, "</goal_context>"@)
    ||| is_fragment(shown, "<recommended_plugins>"@, "</recommended_plugins>"@)
    ||| is_fragment(shown, "<hook_prompt "@, "</hook_prompt>"@)
    ||| begins(
        shown,
        "Warning: The maximum number of unified exec processes you can keep open is"@,
    )
    ||| begins(shown, "Warning: apply_patch was requested via "@)
    ||| begins(
        shown,
        "Warning: Your account was flagged for potentially high-risk cyber activity"@,
    )
    ||| is_external(shown)
}

/// Whether two characters are the same but for the case of an ASCII letter.
fn letters_match(a: char, b: char) -> (r: bool)
    ensures
        r == same_letter(a, b),
{
    a == b || ('A' <= a && a <= 'Z' && b as u32 == a as u32 + 32) || ('A' <= b && b <= 'Z'
        && a as u32 == b as u32 + 32)
}

/// Whether `pattern`, up to the case of ASCII letters, stands in `text` at position `from`.
fn stands_at(text: &Vec<char>, pattern: &Vec<char>, from: usize) -> (r: bool)
    requires
        from + pattern@.len() <= text@.len(),
    ensures
        r == stands_ignoring_case(text@, pattern@, from as int),
{
    let mut i: usize = 0;
    while i < pattern.len()
        invariant
            from + pattern.len() <= text.len(),
            i <= pattern.len(),
            forall|k: int| 0 <= k < i ==> same_letter(text@[from + k], #[trigger] pattern@[k]),
        decreases pattern.len() - i,
    {
        if !letters_match(text[from + i], pattern[i]) {
            return false;
        }
        i += 1;
    }
    true
}

/// Whether `text` begins with `prefix`, up to the case of ASCII letters.
pub fn starts_with_ignore_case(text: &str, prefix: &str) -> (r: bool)
    ensures
        r == begins_ignoring_case(text@, prefix@),
{
    let chars = text::chars_of(text);
    let pattern = text::chars_of(prefix);
    pattern.len() <= chars.len() && stands_at(&chars, &pattern, 0)
}

/// Whether `text` ends with `suffix`, up to the case of ASCII letters.
pub fn ends_with_ignore_case(text: &str, suffix: &str) -> (r: bool)
    ensures
        r == ends_ignoring_case(text@, suffix@),
{
    let chars = text::chars_of(text);
    let pattern = text::chars_of(suffix);
    pattern.len() <= chars.len() && stands_at(&chars, &pattern, chars.len() - pattern.len())
}

/// Whether `text` begins with `start` and ends with `end`, up to the case of ASCII letters.
fn fragment(text: &str, start: &str, end: &str) -> (r: bool)
    ensures
        r == is_fragment(text@, start@, end@),
{
    starts_with_ignore_case(text, start) && ends_with_ignore_case(text, end)
}

/// Whether `text` begins with `<external_KEY>` and ends with `</external_KEY>`.
fn external(text: &str) -> (r: bool)
    ensures
        r == is_external(text@),
{
    if !text::starts_with(text, "<external_") {
        return false;
    }
    let rest = text.substring_char("<external_".unicode_len(), text.unicode_len());
    match text::find(rest, ">") {
        Some(n) => {
            let key = rest.substring_char(0, n);
            assert(key@ =~= rest@.take(n as int));
            let mut close = "</external_".to_owned();
            close.append(key);
            close.append(">");
            text::ends_with(text, close.as_str())
        },
        None => false,
    }
}

/// Whether `text` is a fragment of harness-injected context rather than something the user typed.
pub fn is_contextual_user_text(text: &str) -> (r: bool)
    ensures
        r == is_contextual(text@),
{
    let shown = text::trim(text);
    fragment(shown, "# AGENTS.md instructions", "</INSTRUCTIONS>")
    // Older rollouts wrapped AGENTS.md in a tag of its own.
     || fragment(shown, "<user_instructions>", "</user_instructions>") || fragment(
        shown,
        "<environment_context>",
        "</environment_context>",
    ) || fragment(
        shown,
        "<agent_message_board_notification>",
        "</agent_message_board_notification>",
    ) || fragment(shown, "<skill>", "</skill>") || fragment(
        shown,
        "<user_shell_command>",
        "</user_shell_command>",
    ) || fragment(shown, "<turn_aborted>", "</turn_aborted>") || fragment(
        shown,
        "<subagent_notification>",
        "</subagent_notification>",
    ) || fragment(shown, "<codex_internal_context", "</codex_internal_context>") || fragment(
        shown,
        "<goal_context>",
        "</goal_context>",
    ) || fragment(shown, "<recommended_plugins>", "</recommended_plugins>")
    // `<hook_prompt hook_run_id="...">`.
     || fragment(shown, "<hook_prompt ", "</hook_prompt>") || text::starts_with(
        shown,
        "Warning: The maximum number of unified exec processes you can keep open is",
    ) || text::starts_with(shown, "Warning: apply_patch was requested via ") || text::starts_with(
        shown,
        "Warning: Your account was flagged for potentially high-risk cyber activity",
    ) || external(shown)
}

/// Whether these are the start and the end of a fragment that the harness injects.
pub open spec fn marks_fragment(start: Seq<char>, end: Seq<char>) -> bool {
    ||| start == "# AGENTS.md instructions"@ && end == "</INSTRUCTIONS>"@
    ||| start == "<user_instructions>"@ && end == "</user_instructions>"@
    ||| start == "<environment_context>"@ && end == "</environment_context>"@
    ||| start == "<agent_message_board_notification>"@ && end
        == "</agent_message_board_notification>"@
    ||| start == "<skill>"@ && end == "</skill>"@
    ||| start == "<user_shell_command>"@ && end == "</user_shell_command>"@
    ||| start == "<turn_aborted>"@ && end == "</turn_aborted>"@
    ||| start == "<subagent_notification>"@ && end == "</subagent_notification>"@
    ||| start == "<codex_internal_context"@ && end == "</codex_internal_context>"@
    ||| start == "<goal_context>"@ && end == "</goal_context>"@
    ||| start == "<recommended_plugins>"@ && end == "</recommended_plugins>"@
    ||| start == "<hook_prompt "@ && end == "</hook_prompt>"@
}

/// Whether this is the start of a warning that was once injected.
pub open spec fn starts_warning(start: Seq<char>) -> bool {
    ||| start == "Warning: The maximum number of unified exec processes you can keep open is"@
    ||| start == "Warning: apply_patch was requested via "@
    ||| start == "Warning: Your account was flagged for potentially high-risk cyber activity"@
}

/// Whether two texts are the same but for the case of ASCII letters.
pub open spec fn same_but_for_case(a: Seq<char>, b: Seq<char>) -> bool {
    a.len() == b.len() && forall|i: int| 0 <= i < a.len() ==> same_letter(#[trigger] a[i], b[i])
}

/// Case is that of ASCII letters: any other character is like itself alone.
pub proof fn law_case(a: char, b: char)
    ensures
        same_letter(a, a),
        same_letter(a, b) == same_letter(b, a),
        same_letter(a, b) && a != b ==> {
            ||| 'A' <= a <= 'Z' && 'a' <= b <= 'z' && b as u32 - a as u32 == 32
            ||| 'A' <= b <= 'Z' && 'a' <= a <= 'z' && a as u32 - b as u32 == 32
        },
        'A' <= a <= 'Z' && b as u32 == a as u32 + 32 ==> same_letter(a, b),
{
}

/// A fragment that the harness injects is told by its start and its end, in whatever case they are
/// written, and whatever stands between them or, of white space, around them.
pub proof fn law_fragments_are_injected(
    before: Seq<char>,
    start: Seq<char>,
    written_start: Seq<char>,
    middle: Seq<char>,
    end: Seq<char>,
    written_end: Seq<char>,
    behind: Seq<char>,
)
    requires
        marks_fragment(start, end),
        same_but_for_case(written_start, start),
        same_but_for_case(written_end, end),
        forall|i: int| 0 <= i < before.len() ==> is_white_space(#[trigger] before[i]),
        forall|i: int| 0 <= i < behind.len() ==> is_white_space(#[trigger] behind[i]),
    ensures
        is_contextual(before + (written_start + middle + written_end) + behind),
{
    let shown = written_start + middle + written_end;
    lemma_marks(start, end);
    assert(same_letter(written_start[0], start[0]));
    assert(same_letter(written_end[end.len() - 1], end[end.len() - 1]));
    assert(shown[0] == written_start[0]);
    assert(shown.last() == written_end[end.len() - 1]);
    text::law_trimming(before, shown, behind);
    assert(stands_ignoring_case(shown, start, 0)) by {
        assert forall|i: int| 0 <= i < start.len() implies same_letter(
            shown[0 + i],
            #[trigger] start[i],
        ) by {
            assert(shown[i] == written_start[i]);
            assert(same_letter(written_start[i], start[i]));
        }
    }
    let at = shown.len() - end.len();
    assert(stands_ignoring_case(shown, end, at)) by {
        assert forall|i: int| 0 <= i < end.len() implies same_letter(
            shown[at + i],
            #[trigger] end[i],
        ) by {
            assert(shown[at + i] == written_end[i]);
            assert(same_letter(written_end[i], end[i]));
        }
    }
    assert(is_fragment(shown, start, end));
}

/// The marks of fragments begin and end with characters that are no white space and no letters.
proof fn lemma_marks(start: Seq<char>, end: Seq<char>)
    requires
        marks_fragment(start, end),
    ensures
        start.len() > 0 && (start[0] == '<' || start[0] == '#'),
        end.len() > 0 && end.last() == '>',
{
    reveal_strlit("# AGENTS.md instructions");
    reveal_strlit("</INSTRUCTIONS>");
    reveal_strlit("<user_instructions>");
    reveal_strlit("</user_instructions>");
    reveal_strlit("<environment_context>");
    reveal_strlit("</environment_context>");
    reveal_strlit("<agent_message_board_notification>");
    reveal_strlit("</agent_message_board_notification>");
    reveal_strlit("<skill>");
    reveal_strlit("</skill>");
    reveal_strlit("<user_shell_command>");
    reveal_strlit("</user_shell_command>");
    reveal_strlit("<turn_aborted>");
    reveal_strlit("</turn_aborted>");
    reveal_strlit("<subagent_notification>");
    reveal_strlit("</subagent_notification>");
    reveal_strlit("<codex_internal_context");
    reveal_strlit("</codex_internal_context>");
    reveal_strlit("<goal_context>");
    reveal_strlit("</goal_context>");
    reveal_strlit("<recommended_plugins>");
    reveal_strlit("</recommended_plugins>");
    reveal_strlit("<hook_prompt ");
    reveal_strlit("</hook_prompt>");
}

/// A text that begins, after white space, as one of the warnings was injected, whatever follows.
pub proof fn law_warnings_are_injected(text: Seq<char>, start: Seq<char>)
    requires
        starts_warning(start),
        begins(trimmed(text), start),
    ensures
        is_contextual(text),
{
}

/// An element of an external context, whatever its key, was injected, with white space or none
/// around it.
pub proof fn law_external_contexts_are_injected(
    before: Seq<char>,
    key: Seq<char>,
    middle: Seq<char>,
    behind: Seq<char>,
)
    requires
        forall|i: int| 0 <= i < key.len() ==> #[trigger] key[i] != '>',
        forall|i: int| 0 <= i < before.len() ==> is_white_space(#[trigger] before[i]),
        forall|i: int| 0 <= i < behind.len() ==> is_white_space(#[trigger] behind[i]),
    ensures
        is_contextual(
            before + ("<external_"@ + key + ">"@ + middle + "</external_"@ + key + ">"@) + behind,
        ),
{
    reveal_strlit("<external_");
    reveal_strlit(">");
    let shown = "<external_"@ + key + ">"@ + middle + "</external_"@ + key + ">"@;
    assert(shown[0] == '<' && shown.last() == '>');
    text::law_trimming(before, shown, behind);
    assert(">"@ =~= seq!['>']);
    lemma_external("<external_"@, ">"@, "</external_"@, key, middle);
}

/// An element is opened, its key ends with the first `>`, and it is closed.
proof fn lemma_external(
    open: Seq<char>,
    mark: Seq<char>,
    close: Seq<char>,
    key: Seq<char>,
    middle: Seq<char>,
)
    requires
        mark == seq!['>'],
        forall|i: int| 0 <= i < key.len() ==> #[trigger] key[i] != '>',
    ensures
        ({
            let shown = open + key + mark + middle + close + key + mark;
            let rest = after(shown, open.len() as int);
            &&& begins(shown, open)
            &&& first_at(rest, mark) == Some(key.len() as int)
            &&& rest.take(key.len() as int) == key
            &&& ends(shown, close + key + mark)
        }),
{
    let shown = open + key + mark + middle + close + key + mark;
    let rest = key + (mark + middle + close + key + mark);
    let n = open.len() as int;
    let at = key.len() as int;
    assert(shown =~= open + rest);
    assert(shown.subrange(0, n) =~= open);
    assert(after(shown, n) =~= rest);
    assert(rest.subrange(at, at + 1) =~= mark);
    assert forall|i: int| i < at implies !#[trigger] matches_at(rest, mark, i) by {
        if matches_at(rest, mark, i) {
            assert(rest.subrange(i, i + 1)[0] == key[i]);
        }
    }
    text::lemma_first_at(rest, mark, at);
    assert(rest.take(at) =~= key);
    let last = close + key + mark;
    let front = open + key + mark + middle;
    assert(shown =~= front + last);
    assert(shown.subrange(front.len() as int, shown.len() as int) =~= last);
}

/// Nothing else was injected: a text that was stands, without the white space around it, between
/// the marks of a fragment, or begins as a warning, or is an element of an external context that
/// closes what it opens.
pub proof fn law_only_these_are_injected(text: Seq<char>)
    requires
        is_contextual(text),
    ensures
        ({
            let shown = trimmed(text);
            ||| exists|start: Seq<char>, end: Seq<char>| #[trigger]
                marks_fragment(start, end) && begins_ignoring_case(shown, start)
                    && ends_ignoring_case(shown, end)
            ||| exists|start: Seq<char>| #[trigger] starts_warning(start) && begins(shown, start)
            ||| exists|key: Seq<char>|
                begins(shown, "<external_"@ + key + ">"@) && #[trigger] ends(
                    shown,
                    "</external_"@ + key + ">"@,
                )
        }),
{
    let shown = trimmed(text);
    assert(marks_fragment("# AGENTS.md instructions"@, "</INSTRUCTIONS>"@));
    assert(marks_fragment("<user_instructions>"@, "</user_instructions>"@));
    assert(marks_fragment("<environment_context>"@, "</environment_context>"@));
    assert(marks_fragment(
        "<agent_message_board_notification>"@,
        "</agent_message_board_notification>"@,
    ));
    assert(marks_fragment("<skill>"@, "</skill>"@));
    assert(marks_fragment("<user_shell_command>"@, "</user_shell_command>"@));
    assert(marks_fragment("<turn_aborted>"@, "</turn_aborted>"@));
    assert(marks_fragment("<subagent_notification>"@, "</subagent_notification>"@));
    assert(marks_fragment("<codex_internal_context"@, "</codex_internal_context>"@));
    assert(marks_fragment("<goal_context>"@, "</goal_context>"@));
    assert(marks_fragment("<recommended_plugins>"@, "</recommended_plugins>"@));
    assert(marks_fragment("<hook_prompt "@, "</hook_prompt>"@));
    assert(starts_warning(
        "Warning: The maximum number of unified exec processes you can keep open is"@,
    ));
    assert(starts_warning("Warning: apply_patch was requested via "@));
    assert(starts_warning(
        "Warning: Your account was flagged for potentially high-risk cyber activity"@,
    ));
    if is_external(shown) {
        let open = "<external_"@;
        let n = open.len() as int;
        let rest = after(shown, n);
        let found = choose|i: int| matches_at(rest, ">"@, i);
        text::lemma_first_exists(rest, ">"@, found);
        let at = first_at(rest, ">"@)->0;
        let key = rest.take(at);
        let head = open + key + ">"@;
        assert(shown.subrange(0, n) == open);
        assert(rest.subrange(at, at + ">"@.len()) == ">"@);
        assert(shown.subrange(0, head.len() as int) =~= head) by {
            assert(shown.subrange(0, head.len() as int) =~= shown.subrange(0, n) + rest.take(at)
                + rest.subrange(at, at + ">"@.len()));
        }
        assert(begins(shown, head));
    }
}

} // verus!
