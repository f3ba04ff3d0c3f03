//! What the output of a command tells of how it ended.

use vstd::prelude::*;
use vstd::string::*;

use crate::codex::usage::{decimal, law_decimals};
use crate::json::{at, items_view, string_of, Json, JsonValue};
use crate::text;
use crate::text::{after, contains, is_last, is_white_space, last_at, matches_at, trimmed_start};

verus! {

/// Whether a character can be part of a signed decimal number.
pub open spec fn is_code_char(c: char) -> bool {
    '0' <= c <= '9' || c == '-'
}

/// The longest prefix of `text` made of digits and minus signs.
pub open spec fn code_prefix(text: Seq<char>) -> Seq<char>
    decreases text.len(),
{
    if text.len() > 0 && is_code_char(text[0]) {
        seq![text[0]] + code_prefix(text.drop_first())
    } else {
        Seq::empty()
    }
}

/// Whether `digits` is a decimal number: one digit or more.
pub open spec fn is_decimal(digits: Seq<char>) -> bool {
    digits.len() > 0 && forall|i: int| 0 <= i < digits.len() ==> '0' <= #[trigger] digits[i] <= '9'
}

/// The value of decimal digits.
pub open spec fn decimal_value(digits: Seq<char>) -> nat
    decreases digits.len(),
{
    if digits.len() == 0 {
        0
    } else {
        (decimal_value(digits.drop_last()) * 10 + (digits.last() as u32 - '0' as u32)) as nat
    }
}

/// The 64-bit signed integer that a text of digits and minus signs writes out: a sign where it is
/// negative, then one digit or more. None for any other text, or where it does not fit.
pub open spec fn exit_code(text: Seq<char>) -> Option<int> {
    if text.len() > 0 && text[0] == '-' {
        let digits = text.drop_first();
        if is_decimal(digits) && decimal_value(digits) <= 0x8000_0000_0000_0000 {
            Some(-(decimal_value(digits) as int))
        } else {
            None
        }
    } else if is_decimal(text) && decimal_value(text) < 0x8000_0000_0000_0000 {
        Some(decimal_value(text) as int)
    } else {
        None
    }
}

/// Whether the last `marker` in `text` is followed, after white space, by an exit code other than
/// zero. The last one: the header follows the output, which may quote an earlier one.
pub open spec fn fails_after(text: Seq<char>, marker: Seq<char>) -> bool {
    match last_at(text, marker) {
        Some(found) => match exit_code(
            code_prefix(trimmed_start(after(text, found + marker.len()))),
        ) {
            Some(code) => code != 0,
            None => false,
        },
        None => false,
    }
}

/// Whether a text reports a non-zero exit, in either shape Codex has used.
pub open spec fn text_fails(text: Seq<char>) -> bool {
    ||| fails_after(text, "Process exited with code "@)
    ||| fails_after(text, "\"exit_code\":"@)
}

/// Whether a block has a text that reports a non-zero exit.
pub open spec fn block_fails(block: Json) -> bool {
    string_of(at(block, "text"@)) matches Some(text) && text_fails(text)
}

/// Whether one of the blocks has a text that reports a non-zero exit.
pub open spec fn any_block_fails(blocks: Seq<Json>) -> bool {
    exists|i: int| 0 <= i < blocks.len() && block_fails(#[trigger] blocks[i])
}

/// Whether a command output reports a non-zero exit.
pub open spec fn output_fails(output: Json) -> bool {
    match output {
        Json::Str(text) => text_fails(text),
        Json::Array(blocks) => any_block_fails(blocks),
        _ => false,
    }
}

/// More digits never make a number smaller.
proof fn lemma_value_grows(digits: Seq<char>, n: int)
    requires
        is_decimal(digits),
        0 <= n <= digits.len(),
    ensures
        decimal_value(digits.take(n)) <= decimal_value(digits),
    decreases digits.len() - n,
{
    if n < digits.len() {
        lemma_value_grows(digits, n + 1);
        assert(digits.take(n + 1).drop_last() =~= digits.take(n));
        assert('0' <= digits[n] <= '9');
    } else {
        assert(digits.take(n) =~= digits);
    }
}

/// The value of decimal digits, where it is at most 2 to the 63.
fn magnitude(chars: &Vec<char>, from: usize) -> (r: Option<u64>)
    requires
        from <= chars@.len(),
    ensures
        ({
            let digits = chars@.subrange(from as int, chars@.len() as int);
            match r {
                Some(value) => is_decimal(digits) && decimal_value(digits) == value && value
                    <= 0x8000_0000_0000_0000,
                None => !is_decimal(digits) || decimal_value(digits) > 0x8000_0000_0000_0000,
            }
        }),
{
    let ghost digits = chars@.subrange(from as int, chars@.len() as int);
    if from == chars.len() {
        return None;
    }
    let mut value: u64 = 0;
    let mut fits: bool = true;
    let mut i: usize = from;
    assert(digits.take(0) =~= Seq::<char>::empty());
    while i < chars.len()
        invariant
            from <= i <= chars@.len(),
            digits == chars@.subrange(from as int, chars@.len() as int),
            forall|k: int| 0 <= k < i - from ==> '0' <= #[trigger] digits[k] <= '9',
            fits ==> value == decimal_value(digits.take(i - from)) && value
                <= 0x8000_0000_0000_0000,
            !fits ==> decimal_value(digits.take(i - from)) > 0x8000_0000_0000_0000,
        decreases chars.len() - i,
    {
        let c = chars[i];
        assert(digits[i - from] == c);
        if !('0' <= c && c <= '9') {
            return None;
        }
        let digit: u64 = (c as u32 - '0' as u32) as u64;
        assert(digits.take(i - from + 1).drop_last() =~= digits.take(i - from));
        if fits && value <= (0x8000_0000_0000_0000 - digit) / 10 {
            value = value * 10 + digit;
        } else {
            fits = false;
        }
        i += 1;
    }
    assert(digits.take(i - from) =~= digits);
    if fits {
        Some(value)
    } else {
        None
    }
}

/// Whether `text` begins, after white space, with an exit code other than zero.
fn nonzero_code(text: &str) -> (r: bool)
    ensures
        r == (exit_code(code_prefix(trimmed_start(text@))) matches Some(code) && code != 0),
{
    let shown = text::trim_start(text);
    let chars = text::chars_of(shown);
    let mut code: Vec<char> = Vec::new();
    let mut i: usize = 0;
    assert(after(shown@, 0) =~= shown@);
    while i < chars.len() && (('0' <= chars[i] && chars[i] <= '9') || chars[i] == '-')
        invariant
            i <= chars@.len(),
            chars@ == shown@,
            code_prefix(shown@) == code@ + code_prefix(after(shown@, i as int)),
        decreases chars.len() - i,
    {
        assert(after(shown@, i as int).drop_first() =~= after(shown@, i + 1));
        code.push(chars[i]);
        i += 1;
        assert(code_prefix(shown@) =~= code@ + code_prefix(after(shown@, i as int)));
    }
    assert(code@ =~= code_prefix(shown@));
    if code.len() > 0 && code[0] == '-' {
        assert(code@.subrange(1, code@.len() as int) =~= code@.drop_first());
        match magnitude(&code, 1) {
            Some(value) => value != 0,
            None => false,
        }
    } else {
        assert(code@.subrange(0, code@.len() as int) =~= code@);
        match magnitude(&code, 0) {
            Some(value) => value != 0 && value < 0x8000_0000_0000_0000,
            None => false,
        }
    }
}

/// Whether the last `marker` in `text` is followed by an exit code other than zero.
fn marked_failure(text: &str, marker: &str) -> (r: bool)
    ensures
        r == fails_after(text@, marker@),
{
    let total = text.unicode_len();
    match text::rfind(text, marker) {
        Some(found) => nonzero_code(text.substring_char(found + marker.unicode_len(), total)),
        None => false,
    }
}

/// Whether a text reports a non-zero exit.
fn reports_failure(text: &str) -> (r: bool)
    ensures
        r == text_fails(text@),
{
    marked_failure(text, "Process exited with code ") || marked_failure(text, "\"exit_code\":")
}

/// Whether a command output reports a non-zero exit, in either shape Codex has used: the
/// `Process exited with code N` header, or an `"exit_code":N` field in a JSON envelope.
pub fn codex_output_failed(output: &JsonValue) -> (r: bool)
    ensures
        r == output_fails(output@),
{
    match output {
        JsonValue::String(text) => reports_failure(text.as_str()),
        JsonValue::Array(blocks) => {
            let ghost all = items_view(blocks@);
            let mut i: usize = 0;
            while i < blocks.len()
                invariant
                    i <= blocks@.len(),
                    all == items_view(blocks@),
                    all.len() == blocks@.len(),
                    output@ == Json::Array(all),
                    forall|j: int| 0 <= j < i ==> !block_fails(#[trigger] all[j]),
                decreases blocks.len() - i,
            {
                assert(all[i as int] == blocks@[i as int]@);
                if let Some(text) = blocks[i].at("text").as_str() {
                    if reports_failure(text) {
                        assert(block_fails(all[i as int]));
                        assert(any_block_fails(all));
                        return true;
                    }
                }
                i += 1;
            }
            false
        },
        _ => false,
    }
}

/// Only the last report of an exit counts, whatever stands before it: an output may quote an
/// earlier one.
pub proof fn law_last_report_counts(quoted: Seq<char>, marker: Seq<char>, report: Seq<char>)
    requires
        is_last(marker + report, marker, 0),
    ensures
        fails_after(quoted + marker + report, marker) == fails_after(marker + report, marker),
{
    let text = quoted + marker + report;
    let end = marker + report;
    let n = quoted.len() as int;
    assert(text.subrange(n, n + marker.len()) =~= marker);
    assert(matches_at(text, marker, n));
    assert forall|at: int| at > n implies !#[trigger] matches_at(text, marker, at) by {
        if matches_at(text, marker, at) {
            assert(end.subrange(at - n, at - n + marker.len()) =~= text.subrange(
                at,
                at + marker.len(),
            ));
            assert(matches_at(end, marker, at - n));
        }
    }
    text::lemma_last_at(text, marker, n);
    text::lemma_last_at(end, marker, 0);
    assert(after(text, n + marker.len()) =~= after(end, marker.len() as int));
}

/// A number with its sign, where it is negative, in decimal.
pub open spec fn signed_decimal(code: int) -> Seq<char> {
    if code < 0 {
        seq!['-'] + decimal((-code) as nat)
    } else {
        decimal(code as nat)
    }
}

/// Digits and signs are taken up to the first other character.
proof fn lemma_code_prefix(code: Seq<char>, behind: Seq<char>)
    requires
        forall|i: int| 0 <= i < code.len() ==> is_code_char(#[trigger] code[i]),
        behind.len() > 0 ==> !is_code_char(behind[0]),
    ensures
        code_prefix(code + behind) == code,
    decreases code.len(),
{
    let text = code + behind;
    if code.len() > 0 {
        assert(text.drop_first() =~= code.drop_first() + behind);
        assert forall|i: int| 0 <= i < code.drop_first().len() implies is_code_char(
            #[trigger] code.drop_first()[i],
        ) by {
            assert(code.drop_first()[i] == code[i + 1]);
        }
        lemma_code_prefix(code.drop_first(), behind);
        assert(text[0] == code[0]);
        assert(seq![code[0]] + code.drop_first() =~= code);
    } else {
        assert(text =~= behind);
        assert(code =~= Seq::<char>::empty());
    }
}

/// A number that is written out is read back.
proof fn lemma_read_back(code: int)
    requires
        -0x8000_0000_0000_0000 <= code < 0x8000_0000_0000_0000,
    ensures
        exit_code(signed_decimal(code)) == Some(code),
        forall|i: int|
            0 <= i < signed_decimal(code).len() ==> is_code_char(
                #[trigger] signed_decimal(code)[i],
            ),
        signed_decimal(code).len() > 0,
{
    let text = signed_decimal(code);
    if code < 0 {
        law_decimals((-code) as nat);
        assert(text.drop_first() =~= decimal((-code) as nat));
        assert forall|i: int| 0 <= i < text.len() implies is_code_char(#[trigger] text[i]) by {
            if i > 0 {
                assert(text[i] == decimal((-code) as nat)[i - 1]);
            }
        }
    } else {
        law_decimals(code as nat);
        assert(text[0] != '-');
    }
}

/// The exit code that the last report of an output gives tells whether the command failed: any but
/// zero does, with white space or none before it, and whatever stands around the report.
pub proof fn law_exit_codes(
    before: Seq<char>,
    marker: Seq<char>,
    space: Seq<char>,
    code: int,
    behind: Seq<char>,
)
    requires
        -0x8000_0000_0000_0000 <= code < 0x8000_0000_0000_0000,
        forall|i: int| 0 <= i < space.len() ==> is_white_space(#[trigger] space[i]),
        behind.len() > 0 ==> behind[0] != '-' && !('0' <= behind[0] <= '9'),
        is_last(
            before + marker + space + signed_decimal(code) + behind,
            marker,
            before.len() as int,
        ),
    ensures
        fails_after(before + marker + space + signed_decimal(code) + behind, marker) == (code != 0),
{
    let written = signed_decimal(code);
    let text = before + marker + space + written + behind;
    let at = before.len() as int;
    text::lemma_last_at(text, marker, at);
    lemma_read_back(code);
    let rest = after(text, at + marker.len());
    assert(rest =~= space + (written + behind));
    assert((written + behind)[0] == written[0]);
    assert(!is_white_space(written[0]));
    text::lemma_start_trimmed(space, written + behind);
    lemma_code_prefix(written, behind);
}

/// A text fails where either of the two reports does: that a process exited with a code, or a field
/// for the exit code; without both there is no failure.
pub proof fn law_either_report_counts(text: Seq<char>)
    ensures
        text_fails(text) <==> fails_after(text, "Process exited with code "@) || fails_after(
            text,
            "\"exit_code\":"@,
        ),
        !contains(text, "Process exited with code "@) && !contains(text, "\"exit_code\":"@)
            ==> !text_fails(text),
{
}

/// A report that is followed, after white space, by neither a digit nor a sign is no failure.
pub proof fn law_reports_without_a_code(
    before: Seq<char>,
    marker: Seq<char>,
    space: Seq<char>,
    behind: Seq<char>,
)
    requires
        forall|i: int| 0 <= i < space.len() ==> is_white_space(#[trigger] space[i]),
        behind.len() > 0 && behind[0] != '-' && !('0' <= behind[0] <= '9') && !is_white_space(
            behind[0],
        ),
        is_last(before + marker + space + behind, marker, before.len() as int),
    ensures
        !fails_after(before + marker + space + behind, marker),
{
    let text = before + marker + space + behind;
    let at = before.len() as int;
    text::lemma_last_at(text, marker, at);
    assert(after(text, at + marker.len()) =~= space + behind);
    text::lemma_start_trimmed(space, behind);
}

/// An output fails where its text does, or that of one of its blocks; any other value is none.
pub proof fn law_outputs_fail_by_their_texts(output: Json)
    ensures
        output matches Json::Str(text) ==> output_fails(output) == text_fails(text),
        output matches Json::Array(blocks) ==> (output_fails(output) <==> exists|i: int|
            0 <= i < blocks.len() && (at(#[trigger] blocks[i], "text"@) matches Json::Str(text)
                && text_fails(text))),
        !(output is Str) && !(output is Array) ==> !output_fails(output),
{
    if let Json::Array(blocks) = output {
        if any_block_fails(blocks) {
            let i = choose|i: int| 0 <= i < blocks.len() && block_fails(#[trigger] blocks[i]);
            assert(at(blocks[i], "text"@) is Str);
        }
        if exists|i: int|
            0 <= i < blocks.len() && (at(#[trigger] blocks[i], "text"@) matches Json::Str(text)
                && text_fails(text)) {
            let i = choose|i: int|
                0 <= i < blocks.len() && (at(#[trigger] blocks[i], "text"@) matches Json::Str(text)
                    && text_fails(text));
            assert(block_fails(blocks[i]));
        }
    }
}

/// One digit more makes the value ten times as large, and adds the digit.
pub proof fn law_digits_have_a_value(digits: Seq<char>, c: char)
    requires
        '0' <= c <= '9',
    ensures
        decimal_value(Seq::<char>::empty()) == 0,
        decimal_value(digits.push(c)) == decimal_value(digits) * 10 + (c as u32 - '0' as u32),
        is_decimal(digits) ==> is_decimal(digits.push(c)),
        is_decimal(seq![c]),
        !is_decimal(Seq::<char>::empty()),
        is_decimal(digits) ==> !digits.contains('-'),
{
    assert(digits.push(c).drop_last() =~= digits);
    if is_decimal(digits) {
        assert forall|i: int| 0 <= i < digits.push(c).len() implies '0' <= #[trigger] digits.push(
            c,
        )[i] <= '9' by {
            if i < digits.len() {
                assert(digits.push(c)[i] == digits[i]);
            }
        }
    }
}

/// However the code of the last report is written: digits, with a sign or none, fail for any value
/// but zero that a signed 64-bit number can have; anything else that stands there is no failure.
pub proof fn law_written_codes(
    before: Seq<char>,
    marker: Seq<char>,
    space: Seq<char>,
    code: Seq<char>,
    behind: Seq<char>,
)
    requires
        forall|i: int| 0 <= i < space.len() ==> is_white_space(#[trigger] space[i]),
        forall|i: int|
            0 <= i < code.len() ==> (#[trigger] code[i] == '-' || '0' <= code[i] <= '9'),
        behind.len() > 0 ==> behind[0] != '-' && !('0' <= behind[0] <= '9') && !is_white_space(
            behind[0],
        ),
        is_last(before + marker + space + code + behind, marker, before.len() as int),
    ensures
        ({
            let fails = fails_after(before + marker + space + code + behind, marker);
            &&& is_decimal(code) ==> fails == (0 < decimal_value(code) < 0x8000_0000_0000_0000)
            &&& code.len() > 0 && code[0] == '-' && is_decimal(code.drop_first()) ==> fails == (0
                < decimal_value(code.drop_first()) <= 0x8000_0000_0000_0000)
            &&& !is_decimal(code) && !(code.len() > 0 && code[0] == '-' && is_decimal(
                code.drop_first(),
            )) ==> !fails
        }),
{
    let text = before + marker + space + code + behind;
    let at = before.len() as int;
    text::lemma_last_at(text, marker, at);
    assert(after(text, at + marker.len()) =~= space + (code + behind));
    lemma_code_prefix(code, behind);
    if code.len() > 0 {
        assert((code + behind)[0] == code[0]);
        assert(!is_white_space(code[0]));
        text::lemma_start_trimmed(space, code + behind);
    } else if behind.len() > 0 {
        assert(code + behind =~= behind);
        text::lemma_start_trimmed(space, behind);
    } else {
        assert(space + (code + behind) =~= space + Seq::<char>::empty() + Seq::<char>::empty());
        text::law_trimming(space, Seq::empty(), Seq::empty());
    }
}

} // verus!
