//! How the records of commands that the user ran are read, told by the elements that they hold.

use vstd::prelude::*;

use crate::ccode::stripping::{element, law_other_text_is_kept, law_output_is_cut_out};
use crate::ccode::typed::{
    close_tag, open_tag, output_tags, stripped, tag_text, typed, without, without_first_tags,
};
use crate::text;
use crate::text::{after, begins, contains, is_first, trimmed, trimmed_start};

verus! {

/// Tags are written with angle brackets, a closing one with a slash.
pub proof fn law_tags_are_written(name: Seq<char>)
    ensures
        open_tag(name) == seq!['<'] + name + seq!['>'],
        close_tag(name) == seq!['<', '/'] + name + seq!['>'],
{
    reveal_strlit("<");
    reveal_strlit("</");
    reveal_strlit(">");
    assert("<"@ =~= seq!['<']);
    assert("</"@ =~= seq!['<', '/']);
    assert(">"@ =~= seq!['>']);
}

/// What stands between an opening tag, the first of its name, and the closing tag that follows it
/// is read back, whatever stands around them; nothing is read without both.
pub proof fn law_tags_are_read_back(
    before: Seq<char>,
    name: Seq<char>,
    inner: Seq<char>,
    behind: Seq<char>,
)
    requires
        is_first(
            before + open_tag(name) + inner + close_tag(name) + behind,
            open_tag(name),
            before.len() as int,
        ),
        is_first(inner + close_tag(name) + behind, close_tag(name), inner.len() as int),
    ensures
        tag_text(before + open_tag(name) + inner + close_tag(name) + behind, name) == Some(inner),
{
    let text = before + open_tag(name) + inner + close_tag(name) + behind;
    let start = (before.len() + open_tag(name).len()) as int;
    text::lemma_first_at(text, open_tag(name), before.len() as int);
    assert(after(text, start) =~= inner + close_tag(name) + behind);
    text::lemma_first_at(inner + close_tag(name) + behind, close_tag(name), inner.len() as int);
    assert(text.subrange(start, start + inner.len()) =~= inner);
}

/// Nothing is read of a tag that is not opened, or not closed behind where it is opened first.
pub proof fn law_missing_tags_are_not_read(text: Seq<char>, name: Seq<char>, open: int)
    ensures
        !contains(text, open_tag(name)) ==> tag_text(text, name) is None,
        is_first(text, open_tag(name), open) && !contains(
            after(text, open + open_tag(name).len()),
            close_tag(name),
        ) ==> tag_text(text, name) is None,
{
    if is_first(text, open_tag(name), open) {
        text::lemma_first_at(text, open_tag(name), open);
    }
}

/// The record of a slash command is its command line, in whatever order its elements stand: the
/// command's name, and behind a space the arguments without the white space around them, where
/// there are any.
pub proof fn law_slash_commands(text: Seq<char>, name: Seq<char>)
    requires
        begins(trimmed_start(stripped(text)), "<command-"@),
        tag_text(trimmed_start(stripped(text)), "command-name"@) == Some(name),
    ensures
        match tag_text(trimmed_start(stripped(text)), "command-args"@) {
            Some(args) => if trimmed(args).len() > 0 {
                typed(text) == Some(name + seq![' '] + trimmed(args))
            } else {
                typed(text) == Some(name)
            },
            None => typed(text) == Some(name),
        },
{
    reveal_strlit(" ");
    assert(" "@ =~= seq![' ']);
}

/// The record of a command of the shell is that command behind an exclamation mark and a space.
pub proof fn law_shell_commands(text: Seq<char>, command: Seq<char>)
    requires
        begins(trimmed_start(stripped(text)), "<bash-input>"@),
        tag_text(trimmed_start(stripped(text)), "bash-input"@) == Some(command),
    ensures
        typed(text) == Some(seq!['!', ' '] + command),
{
    reveal_strlit("! ");
    reveal_strlit("<command-");
    reveal_strlit("<bash-input>");
    assert("! "@ =~= seq!['!', ' ']);
    let shown = trimmed_start(stripped(text));
    assert(shown.subrange(0, "<bash-input>"@.len() as int)[1] == 'b');
    if begins(shown, "<command-"@) {
        assert(shown.subrange(0, "<command-"@.len() as int)[1] == 'c');
    }
}

/// Any other text is kept as it is, white space and all, once command output is cut out of it; and
/// so is a record whose command cannot be read.
pub proof fn law_other_texts_are_kept(text: Seq<char>)
    requires
        trimmed(stripped(text)).len() > 0,
        begins(trimmed_start(stripped(text)), "<command-"@) ==> tag_text(
            trimmed_start(stripped(text)),
            "command-name"@,
        ) is None,
        begins(trimmed_start(stripped(text)), "<bash-input>"@) ==> tag_text(
            trimmed_start(stripped(text)),
            "bash-input"@,
        ) is None,
    ensures
        typed(text) == Some(stripped(text)),
{
}

/// Whether a name is that of an element of command output.
pub open spec fn names_output(name: Seq<char>) -> bool {
    ||| name == "local-command-stdout"@
    ||| name == "local-command-stderr"@
    ||| name == "bash-stdout"@
    ||| name == "bash-stderr"@
    ||| name == "bash-exit-code"@
}

/// The output of a local command and of the shell, its errors and its exit code, are cut out of a
/// text whole, and what is around them stays, where nothing before the element or in it holds a
/// `<`.
pub proof fn law_each_output_is_cut_out(
    before: Seq<char>,
    name: Seq<char>,
    payload: Seq<char>,
    behind: Seq<char>,
)
    requires
        names_output(name),
        forall|i: int| 0 <= i < before.len() ==> #[trigger] before[i] != '<',
        forall|i: int| 0 <= i < payload.len() ==> #[trigger] payload[i] != '<',
    ensures
        stripped(before + open_tag(name) + payload + close_tag(name) + behind) == before + stripped(
            behind,
        ),
{
    let k: int = if name == "local-command-stdout"@ {
        0
    } else if name == "local-command-stderr"@ {
        1
    } else if name == "bash-stdout"@ {
        2
    } else if name == "bash-stderr"@ {
        3
    } else {
        4
    };
    assert(output_tags()[k] == name);
    law_output_is_cut_out(before, k, payload, behind);
    assert(before + element(k, payload) + behind =~= before + open_tag(name) + payload + close_tag(
        name,
    ) + behind);
}

/// Nothing but command output is cut out: a text that opens none of its elements stays as it is.
pub proof fn law_nothing_else_is_cut_out(text: Seq<char>)
    requires
        forall|name: Seq<char>| names_output(name) ==> !contains(text, #[trigger] open_tag(name)),
    ensures
        stripped(text) == text,
{
    assert forall|k: int| 0 <= k < output_tags().len() implies !contains(
        text,
        open_tag(#[trigger] output_tags()[k]),
    ) by {
        assert(names_output(output_tags()[k]));
    }
    law_other_text_is_kept(text);
}

/// A text that opens no element of a name is left as it is when the elements of that name are cut
/// out.
pub proof fn law_unopened_names_cut_nothing(text: Seq<char>, name: Seq<char>)
    requires
        !contains(text, open_tag(name)),
    ensures
        without(text, name) == text,
{
}

/// Command output is cut out name by name: that of local commands, their errors, that of the shell,
/// its errors, and its exit code.
pub proof fn law_output_is_cut_out_in_turn(text: Seq<char>)
    ensures
        stripped(text) == without(
            without(
                without(
                    without(without(text, "local-command-stdout"@), "local-command-stderr"@),
                    "bash-stdout"@,
                ),
                "bash-stderr"@,
            ),
            "bash-exit-code"@,
        ),
{
    reveal_with_fuel(without_first_tags, 6);
}

} // verus!
