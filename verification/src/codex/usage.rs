//! Codex's `TokenUsage` objects.

use vstd::prelude::*;
use vstd::string::*;

use crate::codex::output::{decimal_value, is_decimal};
use crate::json::{at, count_of, u64_of, Json, JsonValue};
use crate::model::{viewed, Usage};

verus! {

/// The decimal digit of a number below ten.
pub open spec fn digit(n: nat) -> char {
    ('0' as u32 + n) as char
}

/// A number in decimal.
pub open spec fn decimal(n: nat) -> Seq<char>
    decreases n,
{
    if n < 10 {
        seq![digit(n)]
    } else {
        decimal(n / 10).push(digit(n % 10))
    }
}

/// The number of the member `name`, zero where it has none.
pub open spec fn count_at(usage: Json, name: Seq<char>) -> nat {
    count_of(at(usage, name))
}

/// Five numbers in decimal, with dots between them.
pub open spec fn dotted(a: nat, b: nat, c: nat, d: nat, e: nat) -> Seq<char> {
    decimal(a) + "."@ + decimal(b) + "."@ + decimal(c) + "."@ + decimal(d) + "."@ + decimal(e)
}

/// The key of a `TokenUsage` object: its five counts.
pub open spec fn key_of(usage: Json) -> Option<Seq<char>> {
    if usage is Object {
        Some(
            dotted(
                count_at(usage, "input_tokens"@),
                count_at(usage, "cached_input_tokens"@),
                count_at(usage, "output_tokens"@),
                count_at(usage, "reasoning_output_tokens"@),
                count_at(usage, "total_tokens"@),
            ),
        )
    } else {
        None
    }
}

/// `a` less `b`, and zero where `b` is the larger.
pub open spec fn less(a: u64, b: u64) -> u64 {
    if a >= b {
        (a - b) as u64
    } else {
        0
    }
}

/// What a Codex `TokenUsage` stands for. Codex counts cached input inside `input_tokens`, where
/// [`Usage::input`] is the fresh input alone.
pub open spec fn token_usage(usage: Json) -> Option<Usage> {
    if usage is Object {
        let cache_read = u64_of(at(usage, "cached_input_tokens"@));
        Some(
            Usage {
                input: match u64_of(at(usage, "input_tokens"@)) {
                    Some(input) => Some(
                        less(
                            input,
                            match cache_read {
                                Some(cached) => cached,
                                None => 0,
                            },
                        ),
                    ),
                    None => None,
                },
                output: u64_of(at(usage, "output_tokens"@)),
                cache_read,
                cache_write: u64_of(at(usage, "cache_write_input_tokens"@)),
            },
        )
    } else {
        None
    }
}

/// The decimal digit of a number below ten.
fn digit_text(n: u64) -> (r: &'static str)
    requires
        n < 10,
    ensures
        r@ == seq![digit(n as nat)],
{
    proof {
        reveal_strlit("0");
        reveal_strlit("1");
        reveal_strlit("2");
        reveal_strlit("3");
        reveal_strlit("4");
        reveal_strlit("5");
        reveal_strlit("6");
        reveal_strlit("7");
        reveal_strlit("8");
        reveal_strlit("9");
    }
    let text = match n {
        0 => "0",
        1 => "1",
        2 => "2",
        3 => "3",
        4 => "4",
        5 => "5",
        6 => "6",
        7 => "7",
        8 => "8",
        _ => "9",
    };
    assert(text@ =~= seq![digit(n as nat)]);
    text
}

/// Appends a number in decimal.
fn append_decimal(out: &mut String, n: u64)
    ensures
        final(out)@ == old(out)@ + decimal(n as nat),
    decreases n,
{
    if n >= 10 {
        append_decimal(out, n / 10);
    }
    out.append(digit_text(n % 10));
    assert(out@ =~= old(out)@ + decimal(n as nat));
}

/// The number of the member `name`, zero where it has none.
fn count(usage: &JsonValue, name: &str) -> (r: u64)
    ensures
        r == count_at(usage@, name@),
{
    match usage.at(name).as_u64() {
        Some(n) => n,
        None => 0,
    }
}

/// A stable key for one `TokenUsage` object, for lines that carry no id of their own.
pub fn usage_key(usage: &JsonValue) -> (r: Option<String>)
    ensures
        viewed(r) == key_of(usage@),
{
    if !usage.is_object() {
        return None;
    }
    let mut key = String::new();
    append_decimal(&mut key, count(usage, "input_tokens"));
    key.append(".");
    append_decimal(&mut key, count(usage, "cached_input_tokens"));
    key.append(".");
    append_decimal(&mut key, count(usage, "output_tokens"));
    key.append(".");
    append_decimal(&mut key, count(usage, "reasoning_output_tokens"));
    key.append(".");
    append_decimal(&mut key, count(usage, "total_tokens"));
    assert(Some(key@) =~= key_of(usage@));
    Some(key)
}

/// Our [`Usage`] for a Codex `TokenUsage`. Codex (and the Responses API) count cached input inside
/// `input_tokens`, where [`Usage::input`] is the fresh input alone. `output_tokens` already
/// includes `reasoning_output_tokens`.
pub fn usage_of(usage: &JsonValue) -> (r: Option<Usage>)
    ensures
        r == token_usage(usage@),
{
    if !usage.is_object() {
        return None;
    }
    let cache_read = usage.at("cached_input_tokens").as_u64();
    let cached: u64 = match cache_read {
        Some(cached) => cached,
        None => 0,
    };
    Some(
        Usage {
            input: match usage.at("input_tokens").as_u64() {
                Some(input) => Some(input.saturating_sub(cached)),
                None => None,
            },
            output: usage.at("output_tokens").as_u64(),
            cache_read,
            cache_write: usage.at("cache_write_input_tokens").as_u64(),
        },
    )
}

/// Decimals are made of digits: of one below ten, of more from there on.
proof fn lemma_digits(n: nat)
    ensures
        decimal(n).len() > 0,
        n >= 10 ==> decimal(n).len() > 1,
        forall|i: int| 0 <= i < decimal(n).len() ==> '0' <= #[trigger] decimal(n)[i] <= '9',
    decreases n,
{
    if n >= 10 {
        lemma_digits(n / 10);
    }
}

/// No two numbers have the same decimal.
proof fn lemma_decimal(n: nat, m: nat)
    requires
        decimal(n) == decimal(m),
    ensures
        n == m,
    decreases n,
{
    lemma_digits(n);
    lemma_digits(m);
    assert(decimal(n).last() == digit(n % 10));
    assert(decimal(m).last() == digit(m % 10));
    assert(digit(n % 10) as u32 == '0' as u32 + n % 10);
    assert(digit(m % 10) as u32 == '0' as u32 + m % 10);
    if n >= 10 && m >= 10 {
        assert(decimal(n).drop_last() =~= decimal(n / 10));
        assert(decimal(m).drop_last() =~= decimal(m / 10));
        lemma_decimal(n / 10, m / 10);
    }
}

/// What stands before the first dot, and what stands behind it, can be read back.
proof fn lemma_split_at_dot(a: nat, x: Seq<char>, b: nat, y: Seq<char>)
    requires
        decimal(a) + "."@ + x == decimal(b) + "."@ + y,
    ensures
        a == b,
        x == y,
{
    reveal_strlit(".");
    let left = decimal(a) + "."@ + x;
    let right = decimal(b) + "."@ + y;
    lemma_digits(a);
    lemma_digits(b);
    let i = decimal(a).len() as int;
    let j = decimal(b).len() as int;
    assert(left[i] == '.');
    assert(right[j] == '.');
    if i < j {
        assert(right[i] == decimal(b)[i]);
    }
    if j < i {
        assert(left[j] == decimal(a)[j]);
    }
    assert(decimal(a) =~= left.take(i));
    assert(decimal(b) =~= right.take(j));
    lemma_decimal(a, b);
    assert(x =~= left.subrange(i + 1, left.len() as int));
    assert(y =~= right.subrange(j + 1, right.len() as int));
}

/// Whether all counts that a key is made of are the same.
pub open spec fn same_counts(a: Json, b: Json) -> bool {
    &&& count_at(a, "input_tokens"@) == count_at(b, "input_tokens"@)
    &&& count_at(a, "cached_input_tokens"@) == count_at(b, "cached_input_tokens"@)
    &&& count_at(a, "output_tokens"@) == count_at(b, "output_tokens"@)
    &&& count_at(a, "reasoning_output_tokens"@) == count_at(b, "reasoning_output_tokens"@)
    &&& count_at(a, "total_tokens"@) == count_at(b, "total_tokens"@)
}

/// Two usage objects have the same key exactly where their five counts are the same: a snapshot
/// that is sent again keeps its key, and one with another total has another.
pub proof fn law_key_tells_counts(a: Json, b: Json)
    requires
        a is Object,
        b is Object,
    ensures
        key_of(a) is Some,
        key_of(a) == key_of(b) <==> same_counts(a, b),
{
    if key_of(a) == key_of(b) {
        lemma_dotted(
            count_at(a, "input_tokens"@),
            count_at(a, "cached_input_tokens"@),
            count_at(a, "output_tokens"@),
            count_at(a, "reasoning_output_tokens"@),
            count_at(a, "total_tokens"@),
            count_at(b, "input_tokens"@),
            count_at(b, "cached_input_tokens"@),
            count_at(b, "output_tokens"@),
            count_at(b, "reasoning_output_tokens"@),
            count_at(b, "total_tokens"@),
        );
    }
}

/// The same texts with dots between them, read from the right.
proof fn lemma_grouped(
    dot: Seq<char>,
    a: Seq<char>,
    b: Seq<char>,
    c: Seq<char>,
    d: Seq<char>,
    e: Seq<char>,
)
    ensures
        a + dot + b + dot + c + dot + d + dot + e == a + dot + (b + dot + (c + dot + (d + dot
            + e))),
{
    let last = d + dot + e;
    assert(a + dot + b + dot + c + dot + d + dot + e =~= a + dot + b + dot + c + dot + last);
    assert(a + dot + b + dot + c + dot + last =~= a + dot + b + dot + (c + dot + last));
    assert(a + dot + b + dot + (c + dot + last) =~= a + dot + (b + dot + (c + dot + last)));
}

/// Five numbers can be read back from their decimals with dots between them.
proof fn lemma_dotted(
    a: nat,
    b: nat,
    c: nat,
    d: nat,
    e: nat,
    a2: nat,
    b2: nat,
    c2: nat,
    d2: nat,
    e2: nat,
)
    requires
        dotted(a, b, c, d, e) == dotted(a2, b2, c2, d2, e2),
    ensures
        a == a2,
        b == b2,
        c == c2,
        d == d2,
        e == e2,
{
    let dot = "."@;
    let (r4, s4) = (decimal(d) + dot + decimal(e), decimal(d2) + dot + decimal(e2));
    let (r3, s3) = (decimal(c) + dot + r4, decimal(c2) + dot + s4);
    let (r2, s2) = (decimal(b) + dot + r3, decimal(b2) + dot + s3);
    lemma_grouped(dot, decimal(a), decimal(b), decimal(c), decimal(d), decimal(e));
    lemma_grouped(dot, decimal(a2), decimal(b2), decimal(c2), decimal(d2), decimal(e2));
    lemma_split_at_dot(a, r2, a2, s2);
    lemma_split_at_dot(b, r3, b2, s3);
    lemma_split_at_dot(c, r4, c2, s4);
    lemma_split_at_dot(d, decimal(e), d2, decimal(e2));
    lemma_decimal(e, e2);
}

/// Fresh input and cached input together are what Codex counts as input: nothing is counted as
/// both.
pub proof fn law_input_excludes_cached(usage: Json)
    requires
        token_usage(usage) is Some,
    ensures
        ({
            let told = token_usage(usage)->0;
            let cached = count_at(usage, "cached_input_tokens"@);
            let input = count_at(usage, "input_tokens"@);
            &&& told.input is Some == u64_of(at(usage, "input_tokens"@)) is Some
            &&& told.input is Some && cached <= input ==> told.input->0 + cached == input
            &&& told.input is Some && cached > input ==> told.input->0 == 0
        }),
{
}

/// Every count of a usage object is told as the number that its own member holds, whatever the
/// other members hold; only the fresh input depends on another, the cached input. Two objects with
/// the same `output_tokens` tell the same output, reasoning or not.
pub proof fn law_counts_are_told(usage: Json, other: Json)
    requires
        usage is Object,
        other is Object,
    ensures
        token_usage(usage) is Some,
        ({
            let told = token_usage(usage)->0;
            &&& match at(usage, "output_tokens"@) {
                Json::Count(n) => told.output == Some(n),
                _ => told.output is None,
            }
            &&& match at(usage, "cached_input_tokens"@) {
                Json::Count(n) => told.cache_read == Some(n),
                _ => told.cache_read is None,
            }
            &&& match at(usage, "cache_write_input_tokens"@) {
                Json::Count(n) => told.cache_write == Some(n),
                _ => told.cache_write is None,
            }
            &&& match at(usage, "input_tokens"@) {
                Json::Count(n) => match at(usage, "cached_input_tokens"@) {
                    Json::Count(cached) => told.input is Some && (cached <= n ==> told.input->0
                        + cached == n) && (cached > n ==> told.input == Some(0u64)),
                    _ => told.input == Some(n),
                },
                _ => told.input is None,
            }
        }),
        at(usage, "output_tokens"@) == at(other, "output_tokens"@) ==> token_usage(usage)->0.output
            == token_usage(other)->0.output,
{
}

/// A value that is no object tells no usage and has no key.
pub proof fn law_no_usage(usage: Json)
    requires
        !(usage is Object),
    ensures
        token_usage(usage) is None,
        key_of(usage) is None,
{
}

/// A key is written out of the counts of input, cached input, output, reasoning and all together,
/// in that order, with dots between them; a count that is missing is written as zero.
pub proof fn law_keys_are_written(usage: Json, input: u64, cached: u64, output: u64, total: u64)
    requires
        usage is Object,
        at(usage, "input_tokens"@) == Json::Count(input),
        at(usage, "cached_input_tokens"@) == Json::Count(cached),
        at(usage, "output_tokens"@) == Json::Count(output),
        !(at(usage, "reasoning_output_tokens"@) is Count),
        at(usage, "total_tokens"@) == Json::Count(total),
    ensures
        key_of(usage) == Some(
            decimal(input as nat) + seq!['.'] + decimal(cached as nat) + seq!['.'] + decimal(
                output as nat,
            ) + seq!['.'] + seq!['0'] + seq!['.'] + decimal(total as nat),
        ),
{
    reveal_strlit(".");
    assert("."@ =~= seq!['.']);
    assert(decimal(0) =~= seq!['0']);
}

/// A number is written with decimal digits that have its value, without a zero in front.
pub proof fn law_decimals(n: nat)
    ensures
        decimal_value(decimal(n)) == n,
        is_decimal(decimal(n)),
        n > 0 ==> decimal(n)[0] != '0',
        n == 0 ==> decimal(n) == seq!['0'],
    decreases n,
{
    lemma_digits(n);
    if n >= 10 {
        law_decimals(n / 10);
        lemma_digits(n / 10);
        assert(decimal(n).drop_last() =~= decimal(n / 10));
        assert(decimal(n).last() == digit(n % 10));
        assert(digit(n % 10) as u32 == '0' as u32 + n % 10);
        assert(decimal(n)[0] == decimal(n / 10)[0]);
        assert(decimal_value(decimal(n)) == decimal_value(decimal(n / 10)) * 10 + n % 10);
    } else {
        assert(digit(n) as u32 == '0' as u32 + n);
        assert(decimal(n).drop_last() =~= Seq::<char>::empty());
        assert(decimal(n).last() == digit(n));
        assert(decimal_value(Seq::<char>::empty()) == 0);
        assert(decimal_value(decimal(n)) == n);
    }
}

} // verus!
