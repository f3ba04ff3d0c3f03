//! User-role text of a `ccode` transcript, reduced to what the user typed.

use vstd::prelude::*;
use vstd::string::*;

use crate::model::viewed;
use crate::text;
use crate::text::{
    after, begins, contains, first_at, is_first, matches_at, trimmed, trimmed_end, trimmed_start,
};

verus! {

/// The opening tag of an element.
pub open spec fn open_tag(name: Seq<char>) -> Seq<char> {
    "<"@ + name + ">"@
}

/// The closing tag of an element.
pub open spec fn close_tag(name: Seq<char>) -> Seq<char> {
    "</"@ + name + ">"@
}

/// The text between the first opening tag of `name` and the closing tag that follows it.
pub open spec fn tag_text(text: Seq<char>, name: Seq<char>) -> Option<Seq<char>> {
    match first_at(text, open_tag(name)) {
        Some(open) => {
            let start = open + open_tag(name).len();
            match first_at(after(text, start), close_tag(name)) {
                Some(len) => Some(text.subrange(start, start + len)),
                None => None,
            }
        },
        None => None,
    }
}

/// Where the element of `name` that begins at `start` ends: past its closing tag, or, where there
/// is none, at the end of the text.
pub open spec fn element_end(text: Seq<char>, name: Seq<char>, start: int) -> int {
    match first_at(after(text, start), close_tag(name)) {
        Some(at) => start + at + close_tag(name).len(),
        None => text.len() as int,
    }
}

/// `text` with its first element of `name` cut out, and again, until no such element is left.
pub open spec fn without(text: Seq<char>, name: Seq<char>) -> Seq<char>
    decreases text.len(),
{
    match first_at(text, open_tag(name)) {
        Some(start) => {
            proof {
                lemma_element(text, name);
            }
            without(text.take(start) + after(text, element_end(text, name, start)), name)
        },
        None => text,
    }
}

/// An element is not empty and lies within the text.
pub proof fn lemma_element(text: Seq<char>, name: Seq<char>)
    ensures
        first_at(text, open_tag(name)) matches Some(start) ==> {
            &&& is_first(text, open_tag(name), start)
            &&& 0 <= start < element_end(text, name, start) <= text.len()
        },
{
    reveal_strlit("<");
    reveal_strlit("</");
    if let Some(start) = first_at(text, open_tag(name)) {
        let at = choose|at: int| matches_at(text, open_tag(name), at);
        text::lemma_first_exists(text, open_tag(name), at);
        let rest = after(text, start);
        if contains(rest, close_tag(name)) {
            let at = choose|at: int| matches_at(rest, close_tag(name), at);
            text::lemma_first_exists(rest, close_tag(name), at);
        }
    }
}

/// The elements that wrap output the harness captured from a command the user ran (`!cmd`,
/// `/cmd`): execution payload, never text anyone typed.
pub open spec fn output_tags() -> Seq<Seq<char>> {
    seq![
        "local-command-stdout"@,
        "local-command-stderr"@,
        "bash-stdout"@,
        "bash-stderr"@,
        "bash-exit-code"@,
    ]
}

/// `text` without the elements of the first `n` output tags, cut out one tag after the other.
pub open spec fn without_first_tags(text: Seq<char>, n: nat) -> Seq<char>
    decreases n,
{
    if n == 0 {
        text
    } else {
        without(without_first_tags(text, (n - 1) as nat), output_tags()[n - 1])
    }
}

/// `text` without the elements of the output tags.
pub open spec fn stripped(text: Seq<char>) -> Seq<char> {
    without_first_tags(text, output_tags().len())
}

/// What the user typed, as far as a text tells.
pub open spec fn typed(text: Seq<char>) -> Option<Seq<char>> {
    let kept = stripped(text);
    let shown = trimmed_start(kept);
    let whole = if trimmed_end(shown).len() > 0 {
        Some(kept)
    } else {
        None
    };
    if begins(shown, "<command-"@) {
        match tag_text(shown, "command-name"@) {
            Some(name) => {
                let args = match tag_text(shown, "command-args"@) {
                    Some(args) => trimmed(args),
                    None => Seq::empty(),
                };
                Some(
                    if args.len() == 0 {
                        name
                    } else {
                        name + " "@ + args
                    },
                )
            },
            None => whole,
        }
    } else if begins(shown, "<bash-input>"@) {
        match tag_text(shown, "bash-input"@) {
            Some(command) => Some("! "@ + command),
            None => whole,
        }
    } else {
        whole
    }
}

/// `"<name>"`, or `"</name>"` with `"</"` for `start`.
fn tag_around(start: &str, name: &str) -> (r: String)
    ensures
        r@ == start@ + name@ + ">"@,
{
    let mut out = start.to_owned();
    out.append(name);
    out.append(">");
    out
}

/// The text between the first `<name>` and its `</name>`, or `None` without both.
pub fn tag<'a>(text: &'a str, name: &str) -> (r: Option<&'a str>)
    ensures
        viewed(r) == tag_text(text@, name@),
{
    let open = tag_around("<", name);
    let close = tag_around("</", name);
    match text::find(text, open.as_str()) {
        Some(at) => {
            let total = text.unicode_len();
            let start: usize = at + open.as_str().unicode_len();
            let rest = text.substring_char(start, total);
            match text::find(rest, close.as_str()) {
                Some(len) => {
                    let inner = rest.substring_char(0, len);
                    assert(inner@ =~= text@.subrange(start as int, start + len));
                    Some(inner)
                },
                None => None,
            }
        },
        None => None,
    }
}

/// `text` without any element of `name`; an unclosed one runs to the end.
fn strip_element(text: &str, name: &str) -> (r: String)
    ensures
        r@ == without(text@, name@),
{
    let open = tag_around("<", name);
    let close = tag_around("</", name);
    let mut out = text.to_owned();
    loop
        invariant
            open@ == open_tag(name@),
            close@ == close_tag(name@),
            without(out@, name@) == without(text@, name@),
        decreases out@.len(),
    {
        proof {
            lemma_element(out@, name@);
        }
        match text::find(out.as_str(), open.as_str()) {
            Some(start) => {
                let total = out.as_str().unicode_len();
                let rest = out.as_str().substring_char(start, total);
                let end: usize = match text::find(rest, close.as_str()) {
                    Some(at) => start + at + close.as_str().unicode_len(),
                    None => total,
                };
                let mut kept = out.as_str().substring_char(0, start).to_owned();
                kept.append(out.as_str().substring_char(end, total));
                assert(kept@ =~= out@.take(start as int) + after(out@, end as int));
                out = kept;
            },
            None => {
                return out;
            },
        }
    }
}

/// `text` without any element of command output; an unclosed one runs to the end.
pub fn strip_output(text: &str) -> (r: String)
    ensures
        r@ == stripped(text@),
{
    proof {
        reveal_with_fuel(without_first_tags, 6);
    }
    let out = strip_element(text, "local-command-stdout");
    let out = strip_element(out.as_str(), "local-command-stderr");
    let out = strip_element(out.as_str(), "bash-stdout");
    let out = strip_element(out.as_str(), "bash-stderr");
    strip_element(out.as_str(), "bash-exit-code")
}

/// A user-role text as the user typed it: command output removed, and a slash command
/// (`<command-name>`) or bash-mode input (`<bash-input>`) record rendered as its command line.
/// `None` when nothing remains.
pub fn typed_text(text: &str) -> (r: Option<String>)
    ensures
        viewed(r) == typed(text@),
{
    let kept = strip_output(text);
    let shown = text::trim_start(kept.as_str());
    if text::starts_with(shown, "<command-") {
        if let Some(name) = tag(shown, "command-name") {
            let mut line = name.to_owned();
            if let Some(args) = tag(shown, "command-args") {
                let args = text::trim(args);
                if !args.is_empty() {
                    line.append(" ");
                    line.append(args);
                }
            }
            return Some(line);
        }
    } else if text::starts_with(shown, "<bash-input>") {
        if let Some(command) = tag(shown, "bash-input") {
            let mut line = "! ".to_owned();
            line.append(command);
            return Some(line);
        }
    }
    if text::trim_end(shown).is_empty() {
        None
    } else {
        Some(kept)
    }
}

} // verus!
