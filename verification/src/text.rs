//! Text as a sequence of characters: searching, trimming, and the few rewrites that the
//! transcript readers need.

use vstd::prelude::*;
use vstd::string::*;

verus! {

/// The characters with the Unicode `White_Space` property.
pub open spec fn is_white_space(c: char) -> bool {
    let code = c as u32;
    ||| 0x9 <= code <= 0xd
    ||| code == 0x20
    ||| code == 0x85
    ||| code == 0xa0
    ||| code == 0x1680
    ||| 0x2000 <= code <= 0x200a
    ||| code == 0x2028
    ||| code == 0x2029
    ||| code == 0x202f
    ||| code == 0x205f
    ||| code == 0x3000
}

/// `char::is_whitespace`: whether the character has the Unicode `White_Space` property, that is,
/// whether it is one of those that [`is_white_space`] lists.
pub assume_specification[ char::is_whitespace ](c: char) -> (r: bool)
    ensures
        r == is_white_space(c),
;

/// `text` from position `from` on.
pub open spec fn after(text: Seq<char>, from: int) -> Seq<char> {
    text.subrange(from, text.len() as int)
}

/// Whether `pattern` stands in `text` at position `at`.
pub open spec fn matches_at(text: Seq<char>, pattern: Seq<char>, at: int) -> bool {
    &&& 0 <= at
    &&& at + pattern.len() <= text.len()
    &&& text.subrange(at, at + pattern.len()) == pattern
}

/// Whether `pattern` stands anywhere in `text`.
pub open spec fn contains(text: Seq<char>, pattern: Seq<char>) -> bool {
    exists|at: int| matches_at(text, pattern, at)
}

/// Whether `at` is the first position at which `pattern` stands in `text`.
pub open spec fn is_first(text: Seq<char>, pattern: Seq<char>, at: int) -> bool {
    &&& matches_at(text, pattern, at)
    &&& forall|before: int| before < at ==> !#[trigger] matches_at(text, pattern, before)
}

/// Whether `at` is the last position at which `pattern` stands in `text`.
pub open spec fn is_last(text: Seq<char>, pattern: Seq<char>, at: int) -> bool {
    &&& matches_at(text, pattern, at)
    &&& forall|after: int| after > at ==> !#[trigger] matches_at(text, pattern, after)
}

/// The first position at which `pattern` stands in `text`.
pub open spec fn first_at(text: Seq<char>, pattern: Seq<char>) -> Option<int> {
    if contains(text, pattern) {
        Some(choose|at: int| is_first(text, pattern, at))
    } else {
        None
    }
}

/// The last position at which `pattern` stands in `text`.
pub open spec fn last_at(text: Seq<char>, pattern: Seq<char>) -> Option<int> {
    if contains(text, pattern) {
        Some(choose|at: int| is_last(text, pattern, at))
    } else {
        None
    }
}

/// Whether `text` begins with `prefix`.
pub open spec fn begins(text: Seq<char>, prefix: Seq<char>) -> bool {
    matches_at(text, prefix, 0)
}

/// Whether `text` ends with `suffix`.
pub open spec fn ends(text: Seq<char>, suffix: Seq<char>) -> bool {
    matches_at(text, suffix, text.len() - suffix.len())
}

/// `text` without its leading white space.
pub open spec fn trimmed_start(text: Seq<char>) -> Seq<char>
    decreases text.len(),
{
    if text.len() > 0 && is_white_space(text[0]) {
        trimmed_start(text.drop_first())
    } else {
        text
    }
}

/// `text` without its trailing white space.
pub open spec fn trimmed_end(text: Seq<char>) -> Seq<char>
    decreases text.len(),
{
    if text.len() > 0 && is_white_space(text.last()) {
        trimmed_end(text.drop_last())
    } else {
        text
    }
}

/// `text` without its leading and trailing white space.
pub open spec fn trimmed(text: Seq<char>) -> Seq<char> {
    trimmed_end(trimmed_start(text))
}

/// A first position is the only one, so it is what [`first_at`] gives.
pub proof fn lemma_first_at(text: Seq<char>, pattern: Seq<char>, at: int)
    requires
        is_first(text, pattern, at),
    ensures
        first_at(text, pattern) == Some(at),
{
    let found = choose|i: int| is_first(text, pattern, i);
    assert(is_first(text, pattern, found));
    assert(matches_at(text, pattern, found) && matches_at(text, pattern, at));
}

/// A last position is the only one, so it is what [`last_at`] gives.
pub proof fn lemma_last_at(text: Seq<char>, pattern: Seq<char>, at: int)
    requires
        is_last(text, pattern, at),
    ensures
        last_at(text, pattern) == Some(at),
{
    let found = choose|i: int| is_last(text, pattern, i);
    assert(is_last(text, pattern, found));
    assert(matches_at(text, pattern, found) && matches_at(text, pattern, at));
}

/// Where `pattern` stands at all it stands somewhere first.
pub proof fn lemma_first_exists(text: Seq<char>, pattern: Seq<char>, at: int)
    requires
        matches_at(text, pattern, at),
    ensures
        first_at(text, pattern) is Some,
        is_first(text, pattern, first_at(text, pattern)->0),
        first_at(text, pattern)->0 <= at,
    decreases at,
{
    if is_first(text, pattern, at) {
        lemma_first_at(text, pattern, at);
    } else {
        let before = choose|before: int|
            before < at && #[trigger] matches_at(text, pattern, before);
        lemma_first_exists(text, pattern, before);
    }
}

/// Whether `a` comes before `b` in the order of characters, the first that differs deciding, and
/// else the shorter text coming first.
pub open spec fn precedes(a: Seq<char>, b: Seq<char>) -> bool
    decreases a.len(),
{
    if b.len() == 0 {
        false
    } else if a.len() == 0 {
        true
    } else if a[0] == b[0] {
        precedes(a.drop_first(), b.drop_first())
    } else {
        a[0] < b[0]
    }
}

/// No text comes before itself, and of two different texts one comes first.
pub proof fn lemma_order_is_total(a: Seq<char>, b: Seq<char>)
    ensures
        a == b ==> !precedes(a, b),
        a != b ==> precedes(a, b) != precedes(b, a),
    decreases a.len(),
{
    if a.len() > 0 && b.len() > 0 && a[0] == b[0] {
        lemma_order_is_total(a.drop_first(), b.drop_first());
        if a.drop_first() == b.drop_first() {
            assert(a =~= seq![a[0]] + a.drop_first());
            assert(b =~= seq![b[0]] + b.drop_first());
        }
    } else if a.len() == 0 && b.len() == 0 {
        assert(a =~= b);
    }
}

/// What comes before a text that comes before another comes before that one too.
pub proof fn lemma_order_is_transitive(a: Seq<char>, b: Seq<char>, c: Seq<char>)
    requires
        precedes(a, b),
        precedes(b, c),
    ensures
        precedes(a, c),
    decreases a.len(),
{
    if a.len() > 0 && a[0] == b[0] && b[0] == c[0] {
        lemma_order_is_transitive(a.drop_first(), b.drop_first(), c.drop_first());
    }
}

/// The characters of `text`.
pub fn chars_of(text: &str) -> (r: Vec<char>)
    ensures
        r@ == text@,
{
    let mut out: Vec<char> = Vec::new();
    for c in it: text.chars()
        invariant
            out@ == it.seq().take(it.index() as int),
            it.seq() == text@,
    {
        out.push(c);
    }
    out
}

/// Whether the characters `pattern` stand in `text` at position `at`.
fn stands_at(text: &Vec<char>, pattern: &Vec<char>, at: usize) -> (r: bool)
    ensures
        r == matches_at(text@, pattern@, at as int),
{
    if pattern.len() > text.len() || at > text.len() - pattern.len() {
        return false;
    }
    let mut i: usize = 0;
    while i < pattern.len()
        invariant
            at + pattern.len() <= text.len(),
            i <= pattern.len(),
            forall|k: int| 0 <= k < i ==> text@[at + k] == #[trigger] pattern@[k],
        decreases pattern.len() - i,
    {
        if text[at + i] != pattern[i] {
            assert(text@.subrange(at as int, at + pattern@.len())[i as int] != pattern@[i as int]);
            return false;
        }
        i += 1;
    }
    assert(text@.subrange(at as int, at + pattern@.len()) =~= pattern@);
    true
}

/// Whether two texts are the same.
pub fn same(a: &str, b: &str) -> (r: bool)
    ensures
        r == (a@ == b@),
{
    let left = chars_of(a);
    let right = chars_of(b);
    if left.len() != right.len() {
        return false;
    }
    let r = stands_at(&left, &right, 0);
    assert(left@.subrange(0, left@.len() as int) =~= left@);
    r
}

/// Whether `a` comes before `b` in the order of characters.
pub fn comes_before(a: &str, b: &str) -> (r: bool)
    ensures
        r == precedes(a@, b@),
{
    let left = chars_of(a);
    let right = chars_of(b);
    let mut i: usize = 0;
    proof {
        assert(after(a@, 0) =~= a@);
        assert(after(b@, 0) =~= b@);
    }
    while i < left.len() && i < right.len()
        invariant
            left@ == a@,
            right@ == b@,
            i <= left.len(),
            i <= right.len(),
            precedes(a@, b@) == precedes(after(a@, i as int), after(b@, i as int)),
        decreases left.len() - i,
    {
        if left[i] != right[i] {
            return left[i] < right[i];
        }
        proof {
            assert(after(a@, i as int).drop_first() =~= after(a@, i + 1));
            assert(after(b@, i as int).drop_first() =~= after(b@, i + 1));
        }
        i += 1;
    }
    i < right.len()
}

/// The first position, counted in characters, at which `pattern` stands in `text`.
pub fn find(text: &str, pattern: &str) -> (r: Option<usize>)
    ensures
        r is Some == contains(text@, pattern@),
        r matches Some(at) ==> is_first(text@, pattern@, at as int) && first_at(text@, pattern@)
            == Some(at as int),
{
    let hay = chars_of(text);
    let needle = chars_of(pattern);
    if needle.len() > hay.len() {
        return None;
    }
    let last: usize = hay.len() - needle.len();
    let mut at: usize = 0;
    while at <= last
        invariant
            hay@ == text@,
            needle@ == pattern@,
            last == hay.len() - needle.len(),
            at <= last + 1,
            forall|before: int| before < at ==> !#[trigger] matches_at(text@, pattern@, before),
        decreases last + 1 - at,
    {
        if stands_at(&hay, &needle, at) {
            proof {
                lemma_first_at(text@, pattern@, at as int);
            }
            return Some(at);
        }
        if at == last {
            return None;
        }
        at += 1;
    }
    None
}

/// The last position, counted in characters, at which `pattern` stands in `text`.
pub fn rfind(text: &str, pattern: &str) -> (r: Option<usize>)
    ensures
        r is Some == contains(text@, pattern@),
        r matches Some(at) ==> is_last(text@, pattern@, at as int) && last_at(text@, pattern@)
            == Some(at as int),
{
    let hay = chars_of(text);
    let needle = chars_of(pattern);
    if needle.len() > hay.len() {
        return None;
    }
    let mut at: usize = hay.len() - needle.len();
    loop
        invariant
            hay@ == text@,
            needle@ == pattern@,
            at <= hay.len() - needle.len(),
            forall|after: int| after > at ==> !#[trigger] matches_at(text@, pattern@, after),
        decreases at,
    {
        if stands_at(&hay, &needle, at) {
            proof {
                lemma_last_at(text@, pattern@, at as int);
            }
            return Some(at);
        }
        if at == 0 {
            return None;
        }
        at -= 1;
    }
}

/// Whether `text` begins with `prefix`.
pub fn starts_with(text: &str, prefix: &str) -> (r: bool)
    ensures
        r == begins(text@, prefix@),
{
    stands_at(&chars_of(text), &chars_of(prefix), 0)
}

/// Whether `text` ends with `suffix`.
pub fn ends_with(text: &str, suffix: &str) -> (r: bool)
    ensures
        r == ends(text@, suffix@),
{
    let hay = chars_of(text);
    let needle = chars_of(suffix);
    needle.len() <= hay.len() && stands_at(&hay, &needle, hay.len() - needle.len())
}

/// `text` without its leading white space.
pub fn trim_start<'a>(text: &'a str) -> (r: &'a str)
    ensures
        r@ == trimmed_start(text@),
{
    let chars = chars_of(text);
    let mut from: usize = 0;
    proof {
        assert(text@.subrange(0, text@.len() as int) =~= text@);
    }
    while from < chars.len() && chars[from].is_whitespace()
        invariant
            chars@ == text@,
            from <= chars.len(),
            trimmed_start(text@) == trimmed_start(text@.subrange(from as int, text@.len() as int)),
        decreases chars.len() - from,
    {
        proof {
            let rest = text@.subrange(from as int, text@.len() as int);
            assert(rest.drop_first() =~= text@.subrange(from + 1, text@.len() as int));
        }
        from += 1;
    }
    text.substring_char(from, chars.len())
}

/// `text` without its trailing white space.
pub fn trim_end<'a>(text: &'a str) -> (r: &'a str)
    ensures
        r@ == trimmed_end(text@),
{
    let chars = chars_of(text);
    let mut to: usize = chars.len();
    proof {
        assert(text@.subrange(0, text@.len() as int) =~= text@);
    }
    while to > 0 && chars[to - 1].is_whitespace()
        invariant
            chars@ == text@,
            to <= chars.len(),
            trimmed_end(text@) == trimmed_end(text@.subrange(0, to as int)),
        decreases to,
    {
        proof {
            let rest = text@.subrange(0, to as int);
            assert(rest.drop_last() =~= text@.subrange(0, to - 1));
        }
        to -= 1;
    }
    text.substring_char(0, to)
}

/// `text` without its leading and trailing white space.
pub fn trim<'a>(text: &'a str) -> (r: &'a str)
    ensures
        r@ == trimmed(text@),
{
    trim_end(trim_start(text))
}

/// Trimming takes all white space away and nothing else: whatever white space stands around a text
/// that neither begins nor ends with any, the text itself is left.
pub proof fn law_trimming(before: Seq<char>, text: Seq<char>, behind: Seq<char>)
    requires
        forall|i: int| 0 <= i < before.len() ==> is_white_space(#[trigger] before[i]),
        forall|i: int| 0 <= i < behind.len() ==> is_white_space(#[trigger] behind[i]),
        text.len() > 0 ==> !is_white_space(text[0]) && !is_white_space(text.last()),
    ensures
        trimmed_start(before + text + behind) == (if text.len() > 0 {
            text + behind
        } else {
            Seq::empty()
        }),
        trimmed_end(before + text + behind) == (if text.len() > 0 {
            before + text
        } else {
            Seq::empty()
        }),
        trimmed(before + text + behind) == text,
{
    let whole = before + text + behind;
    if text.len() > 0 {
        lemma_start_trimmed(before, text + behind);
        assert(before + (text + behind) =~= whole);
        lemma_end_trimmed(before + text, behind);
        lemma_end_trimmed(text, behind);
        assert((before + text).last() == text.last());
    } else {
        assert(whole =~= before + behind);
        lemma_all_white(whole);
        lemma_all_white_start(whole);
        assert(trimmed_end(Seq::<char>::empty()) =~= Seq::<char>::empty());
        assert(text =~= Seq::<char>::empty());
    }
}

/// Leading white space goes, up to the first other character.
pub proof fn lemma_start_trimmed(before: Seq<char>, text: Seq<char>)
    requires
        forall|i: int| 0 <= i < before.len() ==> is_white_space(#[trigger] before[i]),
        text.len() > 0 && !is_white_space(text[0]),
    ensures
        trimmed_start(before + text) == text,
    decreases before.len(),
{
    if before.len() > 0 {
        assert((before + text).drop_first() =~= before.drop_first() + text);
        assert((before + text)[0] == before[0]);
        assert forall|i: int| 0 <= i < before.drop_first().len() implies is_white_space(
            #[trigger] before.drop_first()[i],
        ) by {
            assert(before.drop_first()[i] == before[i + 1]);
        }
        lemma_start_trimmed(before.drop_first(), text);
    } else {
        assert(before + text =~= text);
    }
}

/// Trailing white space goes, down to the last other character.
proof fn lemma_end_trimmed(text: Seq<char>, behind: Seq<char>)
    requires
        forall|i: int| 0 <= i < behind.len() ==> is_white_space(#[trigger] behind[i]),
        text.len() > 0 && !is_white_space(text.last()),
    ensures
        trimmed_end(text + behind) == text,
    decreases behind.len(),
{
    if behind.len() > 0 {
        assert((text + behind).drop_last() =~= text + behind.drop_last());
        assert((text + behind).last() == behind.last());
        assert(behind.last() == behind[behind.len() - 1]);
        assert forall|i: int| 0 <= i < behind.drop_last().len() implies is_white_space(
            #[trigger] behind.drop_last()[i],
        ) by {
            assert(behind.drop_last()[i] == behind[i]);
        }
        lemma_end_trimmed(text, behind.drop_last());
    } else {
        assert(text + behind =~= text);
    }
}

/// Of white space alone nothing is left, trimmed from the end.
proof fn lemma_all_white(text: Seq<char>)
    requires
        forall|i: int| 0 <= i < text.len() ==> is_white_space(#[trigger] text[i]),
    ensures
        trimmed_end(text) == Seq::<char>::empty(),
    decreases text.len(),
{
    if text.len() > 0 {
        assert(text.last() == text[text.len() - 1]);
        assert forall|i: int| 0 <= i < text.drop_last().len() implies is_white_space(
            #[trigger] text.drop_last()[i],
        ) by {
            assert(text.drop_last()[i] == text[i]);
        }
        lemma_all_white(text.drop_last());
    } else {
        assert(text =~= Seq::<char>::empty());
    }
}

/// Of white space alone nothing is left, trimmed from the start.
proof fn lemma_all_white_start(text: Seq<char>)
    requires
        forall|i: int| 0 <= i < text.len() ==> is_white_space(#[trigger] text[i]),
    ensures
        trimmed_start(text) == Seq::<char>::empty(),
    decreases text.len(),
{
    if text.len() > 0 {
        assert forall|i: int| 0 <= i < text.drop_first().len() implies is_white_space(
            #[trigger] text.drop_first()[i],
        ) by {
            assert(text.drop_first()[i] == text[i + 1]);
        }
        lemma_all_white_start(text.drop_first());
    } else {
        assert(text =~= Seq::<char>::empty());
    }
}

/// A text begins and ends with what stands at its start and its end, and holds what stands in it;
/// and it does so only where the text can be parted that way.
pub proof fn law_parts_of_texts(a: Seq<char>, b: Seq<char>, c: Seq<char>, text: Seq<char>)
    ensures
        begins(a + b, a),
        ends(a + b, b),
        contains(a + b + c, b),
        begins(text, a) ==> text == a + after(text, a.len() as int),
        ends(text, b) ==> text == text.take(text.len() - b.len()) + b,
{
    assert((a + b).subrange(0, a.len() as int) =~= a);
    assert((a + b).subrange(a.len() as int, (a + b).len() as int) =~= b);
    assert((a + b + c).subrange(a.len() as int, (a + b).len() as int) =~= b);
    assert(matches_at(a + b + c, b, a.len() as int));
    if begins(text, a) {
        assert(text =~= text.subrange(0, a.len() as int) + after(text, a.len() as int));
    }
    if ends(text, b) {
        let n = text.len() - b.len();
        assert(text =~= text.take(n) + text.subrange(n, n + b.len()));
    }
}

} // verus!
