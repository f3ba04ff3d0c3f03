//! What cutting command output out of a text leaves.

use vstd::prelude::*;

use crate::ccode::typed::{
    close_tag, element_end, lemma_element, open_tag, output_tags, stripped, tag_text, typed,
    without, without_first_tags,
};
use crate::text;
use crate::text::{
    after, begins, contains, first_at, is_first, is_white_space, matches_at, trimmed, trimmed_end,
    trimmed_start,
};

verus! {

/// The text of a tag stands between its opening tag and the first closing tag behind that, and
/// there is none only where one of the two is missing.
pub proof fn law_tag_stands_between(text: Seq<char>, name: Seq<char>)
    ensures
        tag_text(text, name) matches Some(inner) ==> {
            &&& contains(text, open_tag(name) + inner + close_tag(name))
            &&& !contains(inner, close_tag(name))
        },
        tag_text(text, name) is None ==> !contains(text, open_tag(name)) || !contains(
            after(text, first_at(text, open_tag(name))->0 + open_tag(name).len()),
            close_tag(name),
        ),
{
    reveal_strlit("</");
    let open = open_tag(name);
    let close = close_tag(name);
    if let Some(at) = first_at(text, open) {
        let found = choose|i: int| matches_at(text, open, i);
        text::lemma_first_exists(text, open, found);
        let start = at + open.len();
        let rest = after(text, start);
        if let Some(len) = first_at(rest, close) {
            let found = choose|i: int| matches_at(rest, close, i);
            text::lemma_first_exists(rest, close, found);
            let inner = text.subrange(start, start + len);
            let whole = open + inner + close;
            assert(rest.subrange(len, len + close.len()) =~= text.subrange(
                start + len,
                start + len + close.len(),
            ));
            assert(text.subrange(at, at + whole.len()) =~= whole);
            assert(matches_at(text, whole, at));
            assert(!contains(inner, close)) by {
                if contains(inner, close) {
                    let i = choose|i: int| matches_at(inner, close, i);
                    assert(rest.subrange(i, i + close.len()) =~= inner.subrange(
                        i,
                        i + close.len(),
                    ));
                    assert(matches_at(rest, close, i));
                }
            }
        }
    }
}

/// An element is cut out whole, whatever its payload: what was before it and what is behind it
/// remain.
pub proof fn law_element_is_cut_out(
    before: Seq<char>,
    name: Seq<char>,
    payload: Seq<char>,
    behind: Seq<char>,
)
    requires
        is_first(
            before + open_tag(name) + payload + close_tag(name) + behind,
            open_tag(name),
            before.len() as int,
        ),
        is_first(
            open_tag(name) + payload + close_tag(name) + behind,
            close_tag(name),
            (open_tag(name) + payload).len() as int,
        ),
    ensures
        without(before + open_tag(name) + payload + close_tag(name) + behind, name) == without(
            before + behind,
            name,
        ),
{
    let text = before + open_tag(name) + payload + close_tag(name) + behind;
    let element = open_tag(name) + payload + close_tag(name);
    let start = before.len() as int;
    text::lemma_first_at(text, open_tag(name), start);
    assert(after(text, start) =~= element + behind);
    text::lemma_first_at(
        after(text, start),
        close_tag(name),
        (open_tag(name) + payload).len() as int,
    );
    let end = element_end(text, name, start);
    assert(end == start + element.len());
    assert(text.take(start) =~= before);
    assert(after(text, end) =~= behind);
}

/// An element that is not closed runs to the end of the text.
pub proof fn law_unclosed_element_runs_to_the_end(
    before: Seq<char>,
    name: Seq<char>,
    payload: Seq<char>,
)
    requires
        is_first(before + open_tag(name) + payload, open_tag(name), before.len() as int),
        !contains(open_tag(name) + payload, close_tag(name)),
    ensures
        without(before + open_tag(name) + payload, name) == before,
{
    let text = before + open_tag(name) + payload;
    let start = before.len() as int;
    text::lemma_first_at(text, open_tag(name), start);
    assert(after(text, start) =~= open_tag(name) + payload);
    assert(text.take(start) + after(text, text.len() as int) =~= before);
    reveal_strlit("<");
    if contains(before, open_tag(name)) {
        let at = choose|at: int| matches_at(before, open_tag(name), at);
        assert(text.subrange(at, at + open_tag(name).len()) =~= before.subrange(
            at,
            at + open_tag(name).len(),
        ));
        assert(matches_at(text, open_tag(name), at));
    }
    assert(without(text, name) == without(before, name));
}

/// Once the elements of a name are cut out, none of its opening tags is left.
proof fn lemma_none_left(text: Seq<char>, name: Seq<char>)
    ensures
        !contains(without(text, name), open_tag(name)),
    decreases text.len(),
{
    if let Some(start) = first_at(text, open_tag(name)) {
        lemma_element(text, name);
        lemma_none_left(text.take(start) + after(text, element_end(text, name, start)), name);
    }
}

/// Whether cutting out the elements of output tag `n` puts an opening tag `k` together that was
/// not there before, and that no later cut takes out again.
pub open spec fn joins(text: Seq<char>, k: int, n: int) -> bool {
    &&& k < n < output_tags().len()
    &&& !contains(without_first_tags(text, n as nat), open_tag(output_tags()[k]))
    &&& forall|m: int|
        n < m <= output_tags().len() ==> contains(
            #[trigger] without_first_tags(text, m as nat),
            open_tag(output_tags()[k]),
        )
}

/// No opening tag of command output is left, but for one that was not there to be found: cutting
/// out the elements of a later tag put it together.
pub proof fn law_no_output_tag_is_left(text: Seq<char>, k: int)
    requires
        0 <= k < output_tags().len(),
    ensures
        contains(stripped(text), open_tag(output_tags()[k])) <==> exists|n: int| joins(text, k, n),
{
    lemma_none_left(without_first_tags(text, k as nat), output_tags()[k]);
    assert(without_first_tags(text, (k + 1) as nat) == without(
        without_first_tags(text, k as nat),
        output_tags()[k],
    ));
    if contains(stripped(text), open_tag(output_tags()[k])) {
        lemma_joined_somewhere(text, k, output_tags().len() as int);
    }
    if exists|n: int| joins(text, k, n) {
        let last = output_tags().len() as int;
        assert(contains(without_first_tags(text, last as nat), open_tag(output_tags()[k])));
    }
}

/// An opening tag that is cut out and there in the end was put together by a cut between.
proof fn lemma_joined_somewhere(text: Seq<char>, k: int, n: int)
    requires
        0 <= k < n <= output_tags().len(),
        !contains(without_first_tags(text, (k + 1) as nat), open_tag(output_tags()[k])),
        forall|m: int|
            n <= m <= output_tags().len() ==> contains(
                #[trigger] without_first_tags(text, m as nat),
                open_tag(output_tags()[k]),
            ),
    ensures
        exists|i: int| joins(text, k, i),
    decreases n,
{
    assert(n > k + 1) by {
        assert(contains(without_first_tags(text, n as nat), open_tag(output_tags()[k])));
    }
    if contains(without_first_tags(text, (n - 1) as nat), open_tag(output_tags()[k])) {
        lemma_joined_somewhere(text, k, n - 1);
    } else {
        assert(joins(text, k, n - 1));
    }
}

/// Whether between any two `<` of a text there is a `>`: no tag is begun inside another.
pub open spec fn tags_are_closed(text: Seq<char>) -> bool {
    forall|i: int, j: int|
        0 <= i < j < text.len() && #[trigger] text[i] == '<' && #[trigger] text[j] == '<'
            ==> closed_between(text, i, j)
}

/// Whether there is a `>` between two positions.
pub open spec fn closed_between(text: Seq<char>, i: int, j: int) -> bool {
    exists|k: int| i < k < j && #[trigger] text[k] == '>'
}

/// A cut that begins at a tag leaves all tags closed.
proof fn lemma_cut_keeps_closed(text: Seq<char>, start: int, end: int)
    requires
        tags_are_closed(text),
        0 <= start < end <= text.len(),
        text[start] == '<',
    ensures
        tags_are_closed(text.take(start) + after(text, end)),
{
    let kept = text.take(start) + after(text, end);
    let gap = end - start;
    assert forall|i: int, j: int|
        0 <= i < j < kept.len() && #[trigger] kept[i] == '<' && #[trigger] kept[j] == '<' implies
        closed_between(kept, i, j) by {
        if i >= start {
            assert(text[i + gap] == '<' && text[j + gap] == '<');
            let k = choose|k: int| i + gap < k < j + gap && #[trigger] text[k] == '>';
            assert(kept[k - gap] == '>');
        } else if j < start {
            assert(text[i] == '<' && text[j] == '<');
            let k = choose|k: int| i < k < j && #[trigger] text[k] == '>';
            assert(kept[k] == '>');
        } else {
            assert(text[i] == '<' && text[start] == '<');
            let k = choose|k: int| i < k < start && #[trigger] text[k] == '>';
            assert(kept[k] == '>');
        }
    }
}

/// A cut that begins at a tag of a text with all tags closed puts no opening tag together.
proof fn lemma_cut_joins_nothing(text: Seq<char>, start: int, end: int, name: Seq<char>)
    requires
        tags_are_closed(text),
        0 <= start < end <= text.len(),
        text[start] == '<',
        is_plain(name),
        !contains(text, open_tag(name)),
    ensures
        !contains(text.take(start) + after(text, end), open_tag(name)),
{
    reveal_strlit("<");
    reveal_strlit(">");
    let kept = text.take(start) + after(text, end);
    let open = open_tag(name);
    let gap = end - start;
    if contains(kept, open) {
        let at = choose|at: int| matches_at(kept, open, at);
        let found = kept.subrange(at, at + open.len());
        if at + open.len() <= start {
            assert(text.subrange(at, at + open.len()) =~= found);
            assert(matches_at(text, open, at));
        } else if at >= start {
            assert(text.subrange(at + gap, at + gap + open.len()) =~= found);
            assert(matches_at(text, open, at + gap));
        } else {
            assert(found[0] == '<');
            assert(text[at] == '<' && text[start] == '<');
            let k = choose|k: int| at < k < start && #[trigger] text[k] == '>';
            assert(found[k - at] == '>');
            assert(open[k - at] == name[k - at - 1]);
        }
    }
}

/// Cutting out the elements of one name leaves all tags closed.
proof fn lemma_without_keeps_closed(text: Seq<char>, name: Seq<char>)
    requires
        tags_are_closed(text),
    ensures
        tags_are_closed(without(text, name)),
    decreases text.len(),
{
    if let Some(start) = first_at(text, open_tag(name)) {
        lemma_element(text, name);
        reveal_strlit("<");
        assert(text.subrange(start, start + open_tag(name).len())[0] == '<');
        let end = element_end(text, name, start);
        lemma_cut_keeps_closed(text, start, end);
        lemma_without_keeps_closed(text.take(start) + after(text, end), name);
    }
}

/// Cutting out the elements of one name from a text with all tags closed puts no opening tag of
/// another together.
proof fn lemma_without_joins_nothing(text: Seq<char>, name: Seq<char>, other: Seq<char>)
    requires
        tags_are_closed(text),
        is_plain(other),
        !contains(text, open_tag(other)),
    ensures
        !contains(without(text, name), open_tag(other)),
    decreases text.len(),
{
    if let Some(start) = first_at(text, open_tag(name)) {
        lemma_element(text, name);
        reveal_strlit("<");
        assert(text.subrange(start, start + open_tag(name).len())[0] == '<');
        let end = element_end(text, name, start);
        lemma_cut_keeps_closed(text, start, end);
        lemma_cut_joins_nothing(text, start, end, other);
        lemma_without_joins_nothing(text.take(start) + after(text, end), name, other);
    }
}

/// Whether a name is not empty, and holds neither `<`, `>`, `/` nor a space.
pub open spec fn is_plain(name: Seq<char>) -> bool {
    &&& name.len() > 0
    &&& forall|i: int|
        0 <= i < name.len() ==> #[trigger] name[i] != '<' && name[i] != '>' && name[i] != '/'
            && name[i] != ' '
}

/// The names of the output tags are not empty, and hold neither `<`, `>`, `/` nor a space.
proof fn lemma_plain_names(k: int)
    requires
        0 <= k < output_tags().len(),
    ensures
        is_plain(output_tags()[k]),
{
    reveal_strlit("local-command-stdout");
    reveal_strlit("local-command-stderr");
    reveal_strlit("bash-stdout");
    reveal_strlit("bash-stderr");
    reveal_strlit("bash-exit-code");
}

/// Cutting out the first `n` output tags leaves all tags closed, and none of them opening.
proof fn lemma_first_tags(text: Seq<char>, n: nat)
    requires
        tags_are_closed(text),
        n <= output_tags().len(),
    ensures
        tags_are_closed(without_first_tags(text, n)),
        forall|k: int| 0 <= k < n ==> !contains(
            without_first_tags(text, n),
            open_tag(#[trigger] output_tags()[k]),
        ),
    decreases n,
{
    if n > 0 {
        let before = without_first_tags(text, (n - 1) as nat);
        let name = output_tags()[n - 1];
        lemma_first_tags(text, (n - 1) as nat);
        lemma_without_keeps_closed(before, name);
        lemma_none_left(before, name);
        assert forall|k: int| 0 <= k < n implies !contains(
            without_first_tags(text, n),
            open_tag(#[trigger] output_tags()[k]),
        ) by {
            if k < n - 1 {
                lemma_plain_names(k);
                lemma_without_joins_nothing(before, name, output_tags()[k]);
            }
        }
    }
}

/// Whether a text holds no opening tag of command output.
pub open spec fn holds_no_output(text: Seq<char>) -> bool {
    forall|k: int| 0 <= k < output_tags().len() ==> !contains(
        text,
        open_tag(#[trigger] output_tags()[k]),
    )
}

/// Command output never leaves a text in which no tag is begun inside another: no opening tag of
/// command output is left.
pub proof fn law_no_output_is_left(text: Seq<char>)
    requires
        tags_are_closed(text),
    ensures
        holds_no_output(stripped(text)),
{
    lemma_first_tags(text, output_tags().len());
}

/// A text without an opening tag of command output is left as it is.
pub proof fn law_other_text_is_kept(text: Seq<char>)
    requires
        holds_no_output(text),
    ensures
        stripped(text) == text,
{
    lemma_kept(text, output_tags().len());
}

/// Cutting out tags that do not occur changes nothing.
proof fn lemma_kept(text: Seq<char>, n: nat)
    requires
        n <= output_tags().len(),
        holds_no_output(text),
    ensures
        without_first_tags(text, n) == text,
    decreases n,
{
    if n > 0 {
        lemma_kept(text, (n - 1) as nat);
        assert(!contains(text, open_tag(output_tags()[n - 1])));
    }
}

/// Trimming the end of a text leaves something exactly where not all of it is white space.
proof fn lemma_trimmed_end(text: Seq<char>)
    ensures
        text.len() > 0 && !is_white_space(text[0]) ==> trimmed_end(text).len() > 0,
    decreases text.len(),
{
    if text.len() > 1 && is_white_space(text.last()) {
        lemma_trimmed_end(text.drop_last());
    }
}

/// Nothing is typed exactly where nothing but white space remains beside command output.
pub proof fn law_nothing_typed(text: Seq<char>)
    ensures
        typed(text) is None <==> trimmed(stripped(text)).len() == 0,
{
    let shown = trimmed_start(stripped(text));
    reveal_strlit("<command-");
    reveal_strlit("<bash-input>");
    if begins(shown, "<command-"@) {
        assert(shown.subrange(0, "<command-"@.len() as int)[0] == '<');
        lemma_trimmed_end(shown);
    }
    if begins(shown, "<bash-input>"@) {
        assert(shown.subrange(0, "<bash-input>"@.len() as int)[0] == '<');
        lemma_trimmed_end(shown);
    }
}

/// Trimming the start of a text leaves the end of it.
proof fn lemma_trimmed_start_is_an_end(text: Seq<char>)
    ensures
        exists|from: int|
            0 <= from <= text.len() && trimmed_start(text) == #[trigger] after(text, from),
    decreases text.len(),
{
    if text.len() > 0 && is_white_space(text[0]) {
        let rest = text.drop_first();
        lemma_trimmed_start_is_an_end(rest);
        let from = choose|from: int|
            0 <= from <= rest.len() && trimmed_start(rest) == #[trigger] after(rest, from);
        assert(after(rest, from) =~= after(text, from + 1));
    } else {
        assert(after(text, 0) =~= text);
    }
}

/// What a part of a text holds the text holds.
proof fn lemma_part(text: Seq<char>, from: int, to: int, pattern: Seq<char>)
    requires
        0 <= from <= to <= text.len(),
        contains(text.subrange(from, to), pattern),
    ensures
        contains(text, pattern),
{
    let part = text.subrange(from, to);
    let at = choose|at: int| matches_at(part, pattern, at);
    assert(text.subrange(from + at, from + at + pattern.len()) =~= part.subrange(
        at,
        at + pattern.len(),
    ));
    assert(matches_at(text, pattern, from + at));
}

/// Trimming the end of a text leaves the start of it.
proof fn lemma_trimmed_end_is_a_start(text: Seq<char>)
    ensures
        trimmed_end(text).len() <= text.len(),
        trimmed_end(text) == text.take(trimmed_end(text).len() as int),
    decreases text.len(),
{
    if text.len() > 0 && is_white_space(text.last()) {
        lemma_trimmed_end_is_a_start(text.drop_last());
        let n = trimmed_end(text).len() as int;
        assert(text.drop_last().take(n) =~= text.take(n));
    } else {
        assert(text.take(text.len() as int) =~= text);
    }
}

/// What a text holds once it is trimmed it held before.
proof fn lemma_trimmed_part(text: Seq<char>, pattern: Seq<char>)
    ensures
        contains(trimmed_start(text), pattern) ==> contains(text, pattern),
        contains(trimmed(text), pattern) ==> contains(text, pattern),
{
    lemma_trimmed_start_is_an_end(text);
    let from = choose|from: int|
        0 <= from <= text.len() && trimmed_start(text) == #[trigger] after(text, from);
    let shown = trimmed_start(text);
    lemma_trimmed_end_is_a_start(shown);
    if contains(trimmed(text), pattern) {
        lemma_part(shown, 0, trimmed(text).len() as int, pattern);
    }
    if contains(shown, pattern) {
        lemma_part(text, from, text.len() as int, pattern);
    }
}

/// What stands between tags of a text the text holds.
proof fn lemma_tag_part(text: Seq<char>, name: Seq<char>, pattern: Seq<char>)
    ensures
        tag_text(text, name) matches Some(inner) ==> (contains(inner, pattern) ==> contains(
            text,
            pattern,
        )),
{
    if let Some(inner) = tag_text(text, name) {
        law_tag_stands_between(text, name);
        let whole = open_tag(name) + inner + close_tag(name);
        let at = choose|at: int| matches_at(text, whole, at);
        let n = open_tag(name).len() as int;
        let from = at + n;
        let found = text.subrange(at, at + whole.len());
        assert(found == whole);
        assert(whole.subrange(n, n + inner.len()) =~= inner);
        assert(found.subrange(n, n + inner.len()) =~= text.subrange(from, from + inner.len()));
        if contains(inner, pattern) {
            lemma_part(text, from, from + inner.len(), pattern);
        }
    }
}

/// Two texts with a space between them hold a pattern without one only where one of them does.
proof fn lemma_spaced(a: Seq<char>, b: Seq<char>, pattern: Seq<char>)
    requires
        pattern.len() > 0,
        forall|i: int| 0 <= i < pattern.len() ==> #[trigger] pattern[i] != ' ',
        contains(a + " "@ + b, pattern),
    ensures
        contains(a, pattern) || contains(b, pattern),
{
    reveal_strlit(" ");
    let text = a + " "@ + b;
    let n = a.len() as int;
    let at = choose|at: int| matches_at(text, pattern, at);
    let found = text.subrange(at, at + pattern.len());
    assert(text[n] == ' ');
    if at + pattern.len() <= n {
        assert(a.subrange(at, at + pattern.len()) =~= found);
        assert(matches_at(a, pattern, at));
    } else if at > n {
        assert(b.subrange(at - n - 1, at - n - 1 + pattern.len()) =~= found);
        assert(matches_at(b, pattern, at - n - 1));
    } else {
        assert(found[n - at] == ' ');
        assert(pattern[n - at] == ' ');
    }
}

/// What the user typed holds an opening tag only where what is left of the text does.
proof fn lemma_typed_holds(text: Seq<char>, name: Seq<char>)
    requires
        is_plain(name),
        !contains(stripped(text), open_tag(name)),
    ensures
        typed(text) matches Some(line) ==> !contains(line, open_tag(name)),
{
    reveal_strlit("<");
    reveal_strlit(">");
    reveal_strlit("!");
    reveal_strlit("! ");
    reveal_strlit(" ");
    let open = open_tag(name);
    let kept = stripped(text);
    let shown = trimmed_start(kept);
    lemma_trimmed_part(kept, open);
    lemma_tag_part(shown, "command-name"@, open);
    lemma_tag_part(shown, "command-args"@, open);
    lemma_tag_part(shown, "bash-input"@, open);
    assert forall|i: int| 0 <= i < open.len() implies #[trigger] open[i] != ' ' by {
        if 0 < i < open.len() - 1 {
            assert(open[i] == name[i - 1]);
        }
    }
    if let Some(line) = typed(text) {
        if contains(line, open) {
            if let Some(args) = tag_text(shown, "command-args"@) {
                lemma_trimmed_part(args, open);
                if let Some(command) = tag_text(shown, "command-name"@) {
                    if line == command + " "@ + trimmed(args) {
                        lemma_spaced(command, trimmed(args), open);
                    }
                }
            }
            if let Some(command) = tag_text(shown, "bash-input"@) {
                if line == "! "@ + command {
                    assert("! "@ + command =~= "!"@ + " "@ + command);
                    lemma_spaced("!"@, command, open);
                    if contains("!"@, open) {
                        let at = choose|at: int| matches_at("!"@, open, at);
                    }
                }
            }
        }
    }
}

/// What the user typed, as far as a text tells, holds no command output where cutting it out leaves
/// none, that is, where no cut puts an opening tag together.
pub proof fn law_typed_text_holds_no_output(text: Seq<char>)
    requires
        holds_no_output(stripped(text)),
    ensures
        typed(text) matches Some(line) ==> holds_no_output(line),
{
    if let Some(line) = typed(text) {
        assert forall|k: int| 0 <= k < output_tags().len() implies !contains(
            line,
            open_tag(#[trigger] output_tags()[k]),
        ) by {
            lemma_plain_names(k);
            lemma_typed_holds(text, output_tags()[k]);
        }
    }
}

/// A text in front of which nothing can be found stays in front of what is left.
proof fn lemma_inert_prefix(before: Seq<char>, text: Seq<char>, name: Seq<char>)
    requires
        forall|more: Seq<char>, i: int|
            0 <= i < before.len() ==> !#[trigger] matches_at(before + more, open_tag(name), i),
    ensures
        without(before + text, name) == before + without(text, name),
    decreases text.len(),
{
    let open = open_tag(name);
    let whole = before + text;
    let n = before.len() as int;
    assert forall|i: int| #[trigger] matches_at(whole, open, i) implies matches_at(
        text,
        open,
        i - n,
    ) by {
        assert(text.subrange(i - n, i - n + open.len()) =~= whole.subrange(i, i + open.len()));
    }
    if let Some(start) = first_at(text, open) {
        lemma_element(text, name);
        assert(whole.subrange(n + start, n + start + open.len()) =~= text.subrange(
            start,
            start + open.len(),
        ));
        assert(is_first(whole, open, n + start));
        text::lemma_first_at(whole, open, n + start);
        assert(after(whole, n + start) =~= after(text, start));
        let end = element_end(text, name, start);
        let rest = text.take(start) + after(text, end);
        assert(whole.take(n + start) + after(whole, n + end) =~= before + rest);
        lemma_inert_prefix(before, rest, name);
    } else {
        assert(!contains(whole, open));
    }
}

/// Before a text without `<` no tag begins.
proof fn lemma_nothing_begins(before: Seq<char>, name: Seq<char>)
    requires
        forall|i: int| 0 <= i < before.len() ==> #[trigger] before[i] != '<',
    ensures
        forall|more: Seq<char>, i: int|
            0 <= i < before.len() ==> !#[trigger] matches_at(before + more, open_tag(name), i),
{
    reveal_strlit("<");
    assert forall|more: Seq<char>, i: int| 0 <= i < before.len() implies !#[trigger] matches_at(
        before + more,
        open_tag(name),
        i,
    ) by {
        if matches_at(before + more, open_tag(name), i) {
            let found = (before + more).subrange(i, i + open_tag(name).len());
            assert(found[0] == before[i]);
        }
    }
}

/// An element of one output tag, in a text without another `<`, begins no other output tag.
proof fn lemma_element_begins_no_other(before: Seq<char>, k: int, payload: Seq<char>, j: int)
    requires
        0 <= k < output_tags().len(),
        0 <= j < output_tags().len(),
        j != k,
        forall|i: int| 0 <= i < before.len() ==> #[trigger] before[i] != '<',
        forall|i: int| 0 <= i < payload.len() ==> #[trigger] payload[i] != '<',
    ensures
        forall|more: Seq<char>, i: int|
            0 <= i < (before + element(k, payload)).len() ==> !#[trigger] matches_at(
                before + element(k, payload) + more,
                open_tag(output_tags()[j]),
                i,
            ),
{
    reveal_strlit("<");
    reveal_strlit("</");
    reveal_strlit(">");
    lemma_plain_names(k);
    lemma_plain_names(j);
    lemma_names_differ(j, k);
    let name = output_tags()[k];
    let other = output_tags()[j];
    let open = open_tag(other);
    let part = before + element(k, payload);
    let n = before.len() as int;
    let close_at = n + open_tag(name).len() + payload.len();
    assert forall|more: Seq<char>, i: int| 0 <= i < part.len() implies !#[trigger] matches_at(
        part + more,
        open,
        i,
    ) by {
        let whole = part + more;
        if matches_at(whole, open, i) {
            let found = whole.subrange(i, i + open.len());
            assert(found[0] == '<' && found[0] == part[i]);
            assert(found[1] == other[0] && found[1] == whole[i + 1]);
            if i == n {
                assert forall|d: int| 0 <= d < open.len() implies whole[n + d]
                    == #[trigger] open[d] by {
                    assert(found[d] == whole[n + d]);
                }
                lemma_same_name(open, open_tag(name), whole, n, other, name);
            } else if i == close_at {
                assert(part[close_at + 1] == '/');
            } else if n < i < n + open_tag(name).len() - 1 {
                assert(part[i] == name[i - n - 1]);
            } else if n + open_tag(name).len() <= i < close_at {
                assert(part[i] == payload[i - n - open_tag(name).len()]);
            } else if close_at + 1 < i < part.len() - 1 {
                assert(part[i] == name[i - close_at - 2]);
            }
        }
    }
}

/// Two opening tags that stand at the same place have the same name.
proof fn lemma_same_name(
    a: Seq<char>,
    b: Seq<char>,
    text: Seq<char>,
    at: int,
    name: Seq<char>,
    other: Seq<char>,
)
    requires
        a == open_tag(name),
        b == open_tag(other),
        is_plain(name),
        is_plain(other),
        forall|d: int| 0 <= d < a.len() ==> text[at + d] == #[trigger] a[d],
        forall|d: int| 0 <= d < b.len() ==> text[at + d] == #[trigger] b[d],
    ensures
        name == other,
{
    reveal_strlit("<");
    reveal_strlit(">");
    assert(a[a.len() - 1] == '>' && b[b.len() - 1] == '>');
    if a.len() < b.len() {
        assert(b[a.len() - 1] == other[a.len() - 2]);
        assert(text[at + (a.len() - 1)] == '>');
    }
    if b.len() < a.len() {
        assert(a[b.len() - 1] == name[b.len() - 2]);
        assert(text[at + (b.len() - 1)] == '>');
    }
    assert forall|i: int| 0 <= i < name.len() implies name[i] == other[i] by {
        assert(a[i + 1] == name[i] && b[i + 1] == other[i]);
    }
    assert(name =~= other);
}

/// No two output tags have the same name.
proof fn lemma_names_differ(j: int, k: int)
    requires
        0 <= k < output_tags().len(),
        0 <= j < output_tags().len(),
        j != k,
    ensures
        output_tags()[j] != output_tags()[k],
{
    reveal_strlit("local-command-stdout");
    reveal_strlit("local-command-stderr");
    reveal_strlit("bash-stdout");
    reveal_strlit("bash-stderr");
    reveal_strlit("bash-exit-code");
    assert("local-command-stdout"@.len() == 20 && "local-command-stderr"@.len() == 20);
    assert("bash-stdout"@.len() == 11 && "bash-stderr"@.len() == 11 && "bash-exit-code"@.len()
        == 14);
    assert("local-command-stdout"@[17] == 'o' && "local-command-stderr"@[17] == 'e');
    assert("bash-stdout"@[8] == 'o' && "bash-stderr"@[8] == 'e');
}

/// An element of output tag `k`.
pub open spec fn element(k: int, payload: Seq<char>) -> Seq<char> {
    open_tag(output_tags()[k]) + payload + close_tag(output_tags()[k])
}

/// Cutting out the first `n` output tags behind an element of tag `k` takes the element with it
/// once `k` is among them.
proof fn lemma_element_goes(
    before: Seq<char>,
    k: int,
    payload: Seq<char>,
    behind: Seq<char>,
    n: nat,
)
    requires
        0 <= k < output_tags().len(),
        n <= output_tags().len(),
        forall|i: int| 0 <= i < before.len() ==> #[trigger] before[i] != '<',
        forall|i: int| 0 <= i < payload.len() ==> #[trigger] payload[i] != '<',
    ensures
        without_first_tags(before + element(k, payload) + behind, n) == (if n <= k {
            before + element(k, payload) + without_first_tags(behind, n)
        } else {
            before + without_first_tags(behind, n)
        }),
    decreases n,
{
    if n > 0 {
        let j = n - 1;
        lemma_element_goes(before, k, payload, behind, j as nat);
        let rest = without_first_tags(behind, j as nat);
        let name = output_tags()[j];
        lemma_nothing_begins(before, name);
        if j < k {
            lemma_element_begins_no_other(before, k, payload, j);
            lemma_inert_prefix(before + element(k, payload), rest, name);
        } else if j > k {
            lemma_inert_prefix(before, rest, name);
        } else {
            lemma_element_first(before, k, payload, rest);
            assert(before + element(k, payload) + rest =~= before + open_tag(name) + payload
                + close_tag(name) + rest);
            law_element_is_cut_out(before, name, payload, rest);
            lemma_inert_prefix(before, rest, name);
        }
    }
}

/// The tags of an element are the first of their sort where no other `<` stands before them.
proof fn lemma_element_first(before: Seq<char>, k: int, payload: Seq<char>, behind: Seq<char>)
    requires
        0 <= k < output_tags().len(),
        forall|i: int| 0 <= i < before.len() ==> #[trigger] before[i] != '<',
        forall|i: int| 0 <= i < payload.len() ==> #[trigger] payload[i] != '<',
    ensures
        ({
            let name = output_tags()[k];
            &&& is_first(
                before + open_tag(name) + payload + close_tag(name) + behind,
                open_tag(name),
                before.len() as int,
            )
            &&& is_first(
                open_tag(name) + payload + close_tag(name) + behind,
                close_tag(name),
                (open_tag(name) + payload).len() as int,
            )
        }),
{
    reveal_strlit("<");
    reveal_strlit("</");
    reveal_strlit(">");
    lemma_plain_names(k);
    let name = output_tags()[k];
    let open = open_tag(name);
    let close = close_tag(name);
    let rest = open + payload + close + behind;
    let text = before + open + payload + close + behind;
    let n = before.len() as int;
    assert(text.subrange(n, n + open.len()) =~= open);
    assert forall|i: int| i < n implies !#[trigger] matches_at(text, open, i) by {
        if matches_at(text, open, i) {
            assert(text.subrange(i, i + open.len())[0] == before[i]);
        }
    }
    let at = (open + payload).len() as int;
    assert(rest.subrange(at, at + close.len()) =~= close);
    assert forall|i: int| i < at implies !#[trigger] matches_at(rest, close, i) by {
        if matches_at(rest, close, i) {
            let found = rest.subrange(i, i + close.len());
            assert(found[0] == rest[i] && found[1] == rest[i + 1]);
            assert(close[0] == '<' && close[1] == '/');
            if i == 0 {
                assert(rest[1] == name[0]);
            } else if i < open.len() - 1 {
                assert(rest[i] == name[i - 1]);
            } else if i >= open.len() {
                assert(rest[i] == payload[i - open.len()]);
            }
        }
    }
}

/// Command output is cut out of a text whole: where neither what stands before an element nor its
/// payload holds a `<`, what stands before it stays, the element goes, and what is behind it is
/// treated as if it stood alone.
pub proof fn law_output_is_cut_out(
    before: Seq<char>,
    k: int,
    payload: Seq<char>,
    behind: Seq<char>,
)
    requires
        0 <= k < output_tags().len(),
        forall|i: int| 0 <= i < before.len() ==> #[trigger] before[i] != '<',
        forall|i: int| 0 <= i < payload.len() ==> #[trigger] payload[i] != '<',
    ensures
        stripped(before + element(k, payload) + behind) == before + stripped(behind),
{
    lemma_element_goes(before, k, payload, behind, output_tags().len());
}

/// Whether a pattern is a tag: it begins with its only `<` and ends with its only `>`.
spec fn is_tag(pattern: Seq<char>) -> bool {
    &&& pattern.len() >= 2
    &&& pattern[0] == '<'
    &&& pattern.last() == '>'
    &&& forall|i: int| 0 < i < pattern.len() ==> #[trigger] pattern[i] != '<'
    &&& forall|i: int| 0 <= i < pattern.len() - 1 ==> #[trigger] pattern[i] != '>'
}

/// Opening and closing tags of a plain name are tags.
proof fn lemma_tags(name: Seq<char>)
    requires
        is_plain(name),
    ensures
        is_tag(open_tag(name)),
        is_tag(close_tag(name)),
{
    reveal_strlit("<");
    reveal_strlit("</");
    reveal_strlit(">");
    let open = open_tag(name);
    let close = close_tag(name);
    assert forall|i: int| 0 < i < open.len() - 1 implies #[trigger] open[i] != '<' && open[i]
        != '>' by {
        assert(open[i] == name[i - 1]);
    }
    assert forall|i: int| 1 < i < close.len() - 1 implies #[trigger] close[i] != '<' && close[i]
        != '>' by {
        assert(close[i] == name[i - 2]);
    }
}

/// Around a payload without `<`, behind a `>`, a tag stands only on the left or on the right.
proof fn lemma_around(
    left: Seq<char>,
    payload: Seq<char>,
    right: Seq<char>,
    pattern: Seq<char>,
    i: int,
)
    requires
        is_tag(pattern),
        left.len() > 0,
        left.last() == '>',
        forall|d: int| 0 <= d < payload.len() ==> #[trigger] payload[d] != '<',
    ensures
        matches_at(left + payload + right, pattern, i) <==> matches_at(left, pattern, i)
            || matches_at(right, pattern, i - left.len() - payload.len()),
{
    let whole = left + payload + right;
    let n = left.len() as int;
    let m = n + payload.len();
    if matches_at(left, pattern, i) {
        assert(whole.subrange(i, i + pattern.len()) =~= left.subrange(i, i + pattern.len()));
    }
    if matches_at(right, pattern, i - m) {
        assert(whole.subrange(i, i + pattern.len()) =~= right.subrange(
            i - m,
            i - m + pattern.len(),
        ));
    }
    if matches_at(whole, pattern, i) {
        let found = whole.subrange(i, i + pattern.len());
        assert(found[0] == whole[i]);
        if i < n {
            if i + pattern.len() > n {
                assert(found[n - 1 - i] == left[n - 1]);
                assert(pattern[n - 1 - i] == '>');
            }
            assert(left.subrange(i, i + pattern.len()) =~= found);
        } else if i < m {
            assert(whole[i] == payload[i - n]);
        } else {
            assert(right.subrange(i - m, i - m + pattern.len()) =~= found);
        }
    }
}

/// The first tag around a payload is the first on the left, else the first on the right.
proof fn lemma_first_around(
    left: Seq<char>,
    payload: Seq<char>,
    right: Seq<char>,
    pattern: Seq<char>,
)
    requires
        is_tag(pattern),
        left.len() > 0,
        left.last() == '>',
        forall|d: int| 0 <= d < payload.len() ==> #[trigger] payload[d] != '<',
    ensures
        first_at(left + payload + right, pattern) == (match first_at(left, pattern) {
            Some(at) => Some(at),
            None => match first_at(right, pattern) {
                Some(at) => Some(left.len() + payload.len() + at),
                None => None,
            },
        }),
        first_at(left, pattern) matches Some(at) ==> is_first(left, pattern, at),
        first_at(right, pattern) matches Some(at) ==> is_first(right, pattern, at),
{
    let whole = left + payload + right;
    let m = left.len() + payload.len();
    assert forall|i: int| #[trigger] matches_at(whole, pattern, i) <==> matches_at(left, pattern, i)
        || matches_at(right, pattern, i - m) by {
        lemma_around(left, payload, right, pattern, i);
    }
    if contains(left, pattern) {
        let i = choose|i: int| matches_at(left, pattern, i);
        text::lemma_first_exists(left, pattern, i);
    }
    if contains(right, pattern) {
        let i = choose|i: int| matches_at(right, pattern, i);
        text::lemma_first_exists(right, pattern, i);
    }
    if let Some(at) = first_at(left, pattern) {
        assert(matches_at(whole, pattern, at));
        assert(is_first(whole, pattern, at));
        text::lemma_first_at(whole, pattern, at);
    } else if let Some(at) = first_at(right, pattern) {
        assert(matches_at(right, pattern, m + at - m));
        assert(matches_at(whole, pattern, m + at));
        assert forall|i: int| i < m + at implies !#[trigger] matches_at(whole, pattern, i) by {
            assert(!matches_at(right, pattern, i - m));
        }
        text::lemma_first_at(whole, pattern, m + at);
    } else {
        assert(!contains(whole, pattern));
    }
}

/// A closing tag that stands before or in an opening tag ends before that begins.
proof fn lemma_close_ends_before(
    before: Seq<char>,
    name: Seq<char>,
    other: Seq<char>,
    at: int,
)
    requires
        is_plain(name),
        is_plain(other),
        matches_at(before + open_tag(name), close_tag(other), at),
    ensures
        at + close_tag(other).len() <= before.len(),
{
    reveal_strlit("<");
    reveal_strlit("</");
    reveal_strlit(">");
    lemma_tags(name);
    lemma_tags(other);
    let open = open_tag(name);
    let close = close_tag(other);
    let text = before + open;
    let n = before.len() as int;
    let found = text.subrange(at, at + close.len());
    let end = at + close.len();
    if end > n {
        assert(found[close.len() - 1] == text[end - 1]);
        assert(text[end - 1] == open[end - 1 - n]);
        assert(end == text.len());
        if at <= n {
            assert(found[n - at] == open[0]);
            assert(found[1] == open[1]);
            assert(open[1] == name[0]);
        } else {
            assert(found[0] == open[at - n]);
        }
    }
}

/// Whether cutting out the elements of `name` gives the same for two payloads, or leaves the two
/// payloads between the same texts, the first of which ends with the opening tag `kept`.
spec fn cut_alike(
    name: Seq<char>,
    kept: Seq<char>,
    first: Seq<char>,
    second: Seq<char>,
    payload: Seq<char>,
    other: Seq<char>,
) -> bool {
    ||| without(first, name) == without(second, name)
    ||| exists|before: Seq<char>, behind: Seq<char>|
        without(first, name) == #[trigger] around(before, kept, payload, behind) && without(
            second,
            name,
        ) == around(before, kept, other, behind)
}

/// A payload behind an opening tag, with text around it.
spec fn around(before: Seq<char>, name: Seq<char>, payload: Seq<char>, behind: Seq<char>) -> Seq<
    char,
> {
    before + open_tag(name) + payload + behind
}

/// A cut on the left leaves what stands around it.
proof fn lemma_shorter_left(
    before: Seq<char>,
    tag: Seq<char>,
    payload: Seq<char>,
    behind: Seq<char>,
    start: int,
    end: int,
)
    requires
        0 <= start <= end <= before.len(),
    ensures
        ({
            let whole = before + tag + payload + behind;
            whole.take(start) + after(whole, end) == before.take(start) + after(before, end) + tag
                + payload + behind
        }),
{
    let whole = before + tag + payload + behind;
    assert(whole.take(start) + after(whole, end) =~= before.take(start) + after(before, end) + tag
        + payload + behind);
}

/// A cut from the left over the payload leaves what stands around it.
proof fn lemma_swallowed(
    left: Seq<char>,
    payload: Seq<char>,
    behind: Seq<char>,
    start: int,
    end: int,
)
    requires
        0 <= start <= left.len(),
        0 <= end <= behind.len(),
    ensures
        ({
            let whole = left + payload + behind;
            whole.take(start) + after(whole, left.len() + payload.len() + end) == left.take(start)
                + after(behind, end)
        }),
{
    let whole = left + payload + behind;
    assert(whole.take(start) + after(whole, left.len() + payload.len() + end) =~= left.take(start)
        + after(behind, end));
}

/// The end of a text with more behind it.
proof fn lemma_tail_of(left: Seq<char>, payload: Seq<char>, behind: Seq<char>, start: int)
    requires
        0 <= start < left.len(),
    ensures
        after(left + payload + behind, start) == after(left, start) + payload + behind,
        after(left, start).last() == left.last(),
{
    assert(after(left + payload + behind, start) =~= after(left, start) + payload + behind);
}

/// The first element that begins before a payload, or with the opening tag right before it, is cut
/// out of the text before the payload, or takes the payload with it.
proof fn lemma_cut_on_the_left(
    before: Seq<char>,
    kept: Seq<char>,
    payload: Seq<char>,
    behind: Seq<char>,
    name: Seq<char>,
    start: int,
)
    requires
        is_plain(kept),
        is_plain(name),
        forall|d: int| 0 <= d < payload.len() ==> #[trigger] payload[d] != '<',
        first_at(before + open_tag(kept), open_tag(name)) == Some(start),
    ensures
        ({
            let left = before + open_tag(kept);
            let close = close_tag(name);
            match first_at(after(left, start), close) {
                Some(at) => {
                    &&& 0 <= start < start + at + close.len() <= before.len()
                    &&& without(around(before, kept, payload, behind), name) == without(
                        around(
                            before.take(start) + after(before, start + at + close.len()),
                            kept,
                            payload,
                            behind,
                        ),
                        name,
                    )
                },
                None => without(around(before, kept, payload, behind), name) == without(
                    left.take(start) + match first_at(behind, close) {
                        Some(at) => after(behind, at + close.len()),
                        None => Seq::empty(),
                    },
                    name,
                ),
            }
        }),
{
    lemma_tags(kept);
    lemma_tags(name);
    let left = before + open_tag(kept);
    let whole = around(before, kept, payload, behind);
    let close = close_tag(name);
    lemma_first_around(left, payload, behind, open_tag(name));
    lemma_tail_of(left, payload, behind, start);
    let tail = after(left, start);
    lemma_first_around(tail, payload, behind, close);
    let end = element_end(whole, name, start);
    assert(without(whole, name) == without(whole.take(start) + after(whole, end), name));
    if let Some(at) = first_at(tail, close) {
        assert(matches_at(left, close, start + at)) by {
            assert(left.subrange(start + at, start + at + close.len()) =~= tail.subrange(
                at,
                at + close.len(),
            ));
        }
        lemma_close_ends_before(before, kept, name, start + at);
        lemma_shorter_left(before, open_tag(kept), payload, behind, start, end);
    } else if let Some(at) = first_at(behind, close) {
        lemma_swallowed(left, payload, behind, start, at + close.len());
    } else {
        lemma_swallowed(left, payload, behind, start, behind.len() as int);
        assert(after(behind, behind.len() as int) =~= Seq::<char>::empty());
    }
}

/// Where no element begins before a payload, the first one behind it is cut out there.
proof fn lemma_cut_on_the_right(
    before: Seq<char>,
    kept: Seq<char>,
    payload: Seq<char>,
    behind: Seq<char>,
    name: Seq<char>,
)
    requires
        is_plain(kept),
        is_plain(name),
        forall|d: int| 0 <= d < payload.len() ==> #[trigger] payload[d] != '<',
        first_at(before + open_tag(kept), open_tag(name)) is None,
    ensures
        match first_at(behind, open_tag(name)) {
            Some(start) => {
                &&& 0 <= start < element_end(behind, name, start) <= behind.len()
                &&& without(around(before, kept, payload, behind), name) == without(
                    around(
                        before,
                        kept,
                        payload,
                        behind.take(start) + after(behind, element_end(behind, name, start)),
                    ),
                    name,
                )
            },
            None => without(around(before, kept, payload, behind), name) == around(
                before,
                kept,
                payload,
                behind,
            ),
        },
{
    lemma_tags(kept);
    lemma_tags(name);
    let left = before + open_tag(kept);
    let whole = around(before, kept, payload, behind);
    assert(whole =~= left + payload + behind);
    lemma_first_around(left, payload, behind, open_tag(name));
    if let Some(start) = first_at(behind, open_tag(name)) {
        lemma_element(behind, name);
        let at = left.len() + payload.len() + start;
        assert(after(whole, at) =~= after(behind, start));
        let end = element_end(behind, name, start);
        let shorter = behind.take(start) + after(behind, end);
        assert(whole.take(at) + after(whole, element_end(whole, name, at)) =~= around(
            before,
            kept,
            payload,
            shorter,
        ));
    }
}

/// Cutting out the elements of one name does not look at a payload without `<` behind an opening
/// tag.
proof fn lemma_cut_alike(
    before: Seq<char>,
    kept: Seq<char>,
    payload: Seq<char>,
    other: Seq<char>,
    behind: Seq<char>,
    name: Seq<char>,
)
    requires
        is_plain(kept),
        is_plain(name),
        forall|d: int| 0 <= d < payload.len() ==> #[trigger] payload[d] != '<',
        forall|d: int| 0 <= d < other.len() ==> #[trigger] other[d] != '<',
    ensures
        cut_alike(
            name,
            kept,
            around(before, kept, payload, behind),
            around(before, kept, other, behind),
            payload,
            other,
        ),
    decreases before.len() + behind.len(),
{
    let left = before + open_tag(kept);
    if let Some(start) = first_at(left, open_tag(name)) {
        lemma_cut_on_the_left(before, kept, payload, behind, name, start);
        lemma_cut_on_the_left(before, kept, other, behind, name, start);
        if let Some(at) = first_at(after(left, start), close_tag(name)) {
            let end = start + at + close_tag(name).len();
            let shorter = before.take(start) + after(before, end);
            lemma_cut_alike(shorter, kept, payload, other, behind, name);
        }
    } else {
        lemma_cut_on_the_right(before, kept, payload, behind, name);
        lemma_cut_on_the_right(before, kept, other, behind, name);
        if let Some(start) = first_at(behind, open_tag(name)) {
            let shorter = behind.take(start) + after(behind, element_end(behind, name, start));
            lemma_cut_alike(before, kept, payload, other, shorter, name);
        }
    }
}

/// Cutting out the first `n` output tags gives the same for two payloads, or leaves the two
/// payloads between the same texts.
proof fn lemma_cut_alike_through(
    before: Seq<char>,
    k: int,
    payload: Seq<char>,
    other: Seq<char>,
    behind: Seq<char>,
    n: nat,
)
    requires
        0 <= k < output_tags().len(),
        n <= output_tags().len(),
        forall|d: int| 0 <= d < payload.len() ==> #[trigger] payload[d] != '<',
        forall|d: int| 0 <= d < other.len() ==> #[trigger] other[d] != '<',
    ensures
        ({
            let first = without_first_tags(around(before, output_tags()[k], payload, behind), n);
            let second = without_first_tags(around(before, output_tags()[k], other, behind), n);
            ||| first == second
            ||| n <= k && exists|left: Seq<char>, right: Seq<char>|
                first == #[trigger] around(left, output_tags()[k], payload, right) && second
                    == around(left, output_tags()[k], other, right)
        }),
    decreases n,
{
    let kept = output_tags()[k];
    if n == 0 {
        assert(without_first_tags(around(before, kept, payload, behind), 0) == around(
            before,
            kept,
            payload,
            behind,
        ));
    } else {
        let j = n - 1;
        let name = output_tags()[j];
        lemma_cut_alike_through(before, k, payload, other, behind, j as nat);
        lemma_plain_names(k);
        lemma_plain_names(j);
        let first = without_first_tags(around(before, kept, payload, behind), j as nat);
        let second = without_first_tags(around(before, kept, other, behind), j as nat);
        if first != second {
            let (left, right) = choose|left: Seq<char>, right: Seq<char>|
                first == #[trigger] around(left, kept, payload, right) && second == around(
                    left,
                    kept,
                    other,
                    right,
                );
            lemma_cut_alike(left, kept, payload, other, right, name);
            if j == k && without(first, name) != without(second, name) {
                let (l, r) = choose|l: Seq<char>, r: Seq<char>|
                    without(first, name) == #[trigger] around(l, kept, payload, r) && without(
                        second,
                        name,
                    ) == around(l, kept, other, r);
                let text = around(l, kept, payload, r);
                let at = l.len() as int;
                assert(text.subrange(at, at + open_tag(kept).len()) =~= open_tag(kept));
                assert(matches_at(text, open_tag(kept), at));
                lemma_none_left(first, name);
            }
        }
    }
}

/// What an element of command output says does not matter: with any text around it, two payloads
/// without `<` behind the same opening tag of command output leave the same.
pub proof fn law_payload_does_not_matter(
    before: Seq<char>,
    k: int,
    payload: Seq<char>,
    other: Seq<char>,
    behind: Seq<char>,
)
    requires
        0 <= k < output_tags().len(),
        forall|i: int| 0 <= i < payload.len() ==> #[trigger] payload[i] != '<',
        forall|i: int| 0 <= i < other.len() ==> #[trigger] other[i] != '<',
    ensures
        stripped(before + open_tag(output_tags()[k]) + payload + behind) == stripped(
            before + open_tag(output_tags()[k]) + other + behind,
        ),
        stripped(before + element(k, payload) + behind) == stripped(
            before + element(k, other) + behind,
        ),
{
    let kept = output_tags()[k];
    let all = output_tags().len();
    lemma_cut_alike_through(before, k, payload, other, behind, all);
    let closed = close_tag(kept) + behind;
    lemma_cut_alike_through(before, k, payload, other, closed, all);
    assert(before + element(k, payload) + behind =~= around(before, kept, payload, closed));
    assert(before + element(k, other) + behind =~= around(before, kept, other, closed));
}

} // verus!
