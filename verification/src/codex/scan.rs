//! Whether the first bytes of a file contain a needle, decided chunk by chunk, so that a long
//! rollout is never held in memory whole.

use vstd::prelude::*;
use vstd::string::*;
use vstd::utf8::encode_utf8;

verus! {

/// Whether `needle` stands in `bytes` at position `at`.
pub open spec fn occurs_at(bytes: Seq<u8>, needle: Seq<u8>, at: int) -> bool {
    &&& 0 <= at
    &&& at + needle.len() <= bytes.len()
    &&& bytes.subrange(at, at + needle.len()) == needle
}

/// Whether `needle` stands anywhere in `bytes`.
pub open spec fn occurs(bytes: Seq<u8>, needle: Seq<u8>) -> bool {
    exists|at: int| occurs_at(bytes, needle, at)
}

/// `memchr::memmem::Finder::find`: the index of the first occurrence of the needle in the
/// haystack, none where it does not occur.
#[verifier::external_body]
fn find_bytes(haystack: &[u8], needle: &[u8]) -> (r: Option<usize>)
    ensures
        r is Some == occurs(haystack@, needle@),
        r matches Some(at) ==> occurs_at(haystack@, needle@, at as int) && forall|before: int|
            before < at ==> !#[trigger] occurs_at(haystack@, needle@, before),
{
    memchr::memmem::Finder::new(needle).find(haystack)
}

/// How a `token_usage_record` line names its type. Unescaped quotes cannot occur inside a JSON
/// string, so a transcript merely quoting the name does not match.
pub fn usage_record_marker() -> (r: &'static [u8])
    ensures
        r@ == encode_utf8("\"type\":\"token_usage_record\""@),
{
    "\"type\":\"token_usage_record\"".as_bytes()
}

/// The most bytes that are read at once.
pub const CHUNK: usize = 65536;

/// A scan of the first bytes of a file.
pub struct PrefixScan {
    /// How many bytes are still to be read.
    remaining: u64,
    needle: Vec<u8>,
    /// The last bytes seen, as many as a match straddling two chunks can begin with.
    window: Vec<u8>,
    /// The bytes seen.
    seen: Ghost<Seq<u8>>,
}

/// What a chunk decides.
pub enum Progress {
    /// The needle occurs in the bytes seen.
    Found,
    /// The bytes are at an end, and the needle does not occur in them.
    Missing,
    /// The needle does not occur in the bytes seen so far.
    More(PrefixScan),
}

/// What a chunk decides, by the bytes seen before it.
pub enum Verdict {
    Found,
    Missing,
    More,
}

/// What a chunk decides: an empty one that the bytes are at an end, any other whether the needle
/// occurs in the bytes seen with it.
pub open spec fn verdict(seen: Seq<u8>, chunk: Seq<u8>, needle: Seq<u8>) -> Verdict {
    if chunk.len() == 0 {
        Verdict::Missing
    } else if occurs(seen + chunk, needle) {
        Verdict::Found
    } else {
        Verdict::More
    }
}

/// How many of the last bytes seen a match straddling two chunks can begin with.
pub open spec fn overlap(needle: Seq<u8>) -> nat {
    if needle.len() == 0 {
        0
    } else {
        (needle.len() - 1) as nat
    }
}

/// The last `n` bytes, or all where there are fewer.
spec fn tail(bytes: Seq<u8>, n: nat) -> Seq<u8> {
    if bytes.len() <= n {
        bytes
    } else {
        bytes.subrange(bytes.len() - n, bytes.len() as int)
    }
}

/// A needle that does not occur in what was seen occurs with the next chunk exactly where it
/// occurs in the tail of what was seen and the chunk.
proof fn lemma_tail(seen: Seq<u8>, chunk: Seq<u8>, needle: Seq<u8>)
    requires
        seen.len() > 0 ==> !occurs(seen, needle),
    ensures
        occurs(tail(seen, overlap(needle)) + chunk, needle) == occurs(seen + chunk, needle),
{
    let kept = tail(seen, overlap(needle));
    let cut = seen.len() - kept.len();
    let all = seen + chunk;
    let part = kept + chunk;
    assert(part =~= all.subrange(cut, all.len() as int));
    if occurs(part, needle) {
        let at = choose|at: int| occurs_at(part, needle, at);
        assert(all.subrange(cut + at, cut + at + needle.len()) =~= part.subrange(
            at,
            at + needle.len(),
        ));
        assert(occurs_at(all, needle, cut + at));
    }
    if occurs(all, needle) {
        let at = choose|at: int| occurs_at(all, needle, at);
        if at + needle.len() <= seen.len() && seen.len() > 0 {
            assert(seen.subrange(at, at + needle.len()) =~= all.subrange(at, at + needle.len()));
            assert(occurs_at(seen, needle, at));
        } else {
            assert(part.subrange(at - cut, at - cut + needle.len()) =~= all.subrange(
                at,
                at + needle.len(),
            ));
            assert(occurs_at(part, needle, at - cut));
        }
    }
}

impl PrefixScan {
    #[verifier::type_invariant]
    closed spec fn is_consistent(self) -> bool {
        &&& self.window@ == tail(self.seen@, overlap(self.needle@))
        &&& self.seen@.len() > 0 ==> !occurs(self.seen@, self.needle@)
    }

    /// The bytes seen.
    pub closed spec fn seen(&self) -> Seq<u8> {
        self.seen@
    }

    /// What is looked for.
    pub closed spec fn needle(&self) -> Seq<u8> {
        self.needle@
    }

    /// How many bytes are still to be read.
    pub closed spec fn remaining(&self) -> u64 {
        self.remaining
    }

    /// How many bytes the scan holds of those it has seen.
    pub closed spec fn held(&self) -> nat {
        self.window@.len()
    }

    /// A scan of the first `end` bytes for `needle`.
    pub fn new(end: u64, needle: Vec<u8>) -> (r: PrefixScan)
        ensures
            r.seen() == Seq::<u8>::empty(),
            r.needle() == needle@,
            r.remaining() == end,
            r.held() == 0,
    {
        let scan = PrefixScan {
            remaining: end,
            needle,
            window: Vec::new(),
            seen: Ghost(Seq::empty()),
        };
        scan
    }

    /// How many bytes to read next, at most.
    pub fn wants(&self) -> (r: usize)
        ensures
            r <= self.remaining(),
            r == CHUNK || r == self.remaining(),
            r <= CHUNK,
    {
        if self.remaining < CHUNK as u64 {
            self.remaining as usize
        } else {
            CHUNK
        }
    }

    /// Goes on with the next bytes read; no bytes mean that there are none left.
    pub fn feed(self, chunk: &[u8]) -> (r: Progress)
        requires
            chunk@.len() <= self.remaining(),
        ensures
            match r {
                Progress::Found => verdict(self.seen(), chunk@, self.needle()) is Found,
                Progress::Missing => verdict(self.seen(), chunk@, self.needle()) is Missing,
                Progress::More(next) => {
                    &&& verdict(self.seen(), chunk@, self.needle()) is More
                    &&& next.seen() == self.seen() + chunk@
                    &&& next.needle() == self.needle()
                    &&& next.remaining() == self.remaining() - chunk@.len()
                    &&& next.held() <= overlap(next.needle())
                },
            },
    {
        if chunk.len() == 0 {
            return Progress::Missing;
        }
        proof {
            use_type_invariant(&self);
            lemma_tail(self.seen@, chunk@, self.needle@);
        }
        let ghost seen = self.seen@ + chunk@;
        let remaining: u64 = self.remaining - chunk.len() as u64;
        let needle = self.needle;
        let mut window = self.window;
        let ghost before = window@;
        window.extend_from_slice(chunk);
        assert(window@ =~= before + chunk@);
        if find_bytes(window.as_slice(), needle.as_slice()).is_some() {
            return Progress::Found;
        }
        // Keep a needle's length less one, so a match straddling two chunks is still found.
        let keep = needle.len().saturating_sub(1);
        let cut = window.len().saturating_sub(keep);
        let window = window.split_off(cut);
        assert(window@ =~= tail(seen, overlap(needle@)));
        Progress::More(PrefixScan { remaining, needle, window, seen: Ghost(seen) })
    }
}

/// All chunks, one after the other.
pub open spec fn joined(chunks: Seq<Seq<u8>>) -> Seq<u8>
    decreases chunks.len(),
{
    if chunks.len() == 0 {
        Seq::empty()
    } else {
        joined(chunks.drop_last()) + chunks.last()
    }
}

/// Whether one of the chunks, fed in order, makes the scan report the needle as found.
pub open spec fn finds(chunks: Seq<Seq<u8>>, needle: Seq<u8>) -> bool
    decreases chunks.len(),
{
    chunks.len() > 0 && (finds(chunks.drop_last(), needle) || verdict(
        joined(chunks.drop_last()),
        chunks.last(),
        needle,
    ) is Found)
}

/// What occurs in some bytes occurs in them with more behind.
proof fn lemma_still_occurs(bytes: Seq<u8>, more: Seq<u8>, needle: Seq<u8>)
    requires
        occurs(bytes, needle),
    ensures
        occurs(bytes + more, needle),
{
    let at = choose|at: int| occurs_at(bytes, needle, at);
    assert((bytes + more).subrange(at, at + needle.len()) =~= bytes.subrange(
        at,
        at + needle.len(),
    ));
    assert(occurs_at(bytes + more, needle, at));
}

/// A scan finds the needle exactly where it occurs in all the bytes together, however they were
/// cut into chunks: a match straddling two chunks, or many, is still found.
pub proof fn law_scan_is_search(chunks: Seq<Seq<u8>>, needle: Seq<u8>)
    requires
        forall|i: int| 0 <= i < chunks.len() ==> (#[trigger] chunks[i]).len() > 0,
    ensures
        finds(chunks, needle) == (chunks.len() > 0 && occurs(joined(chunks), needle)),
    decreases chunks.len(),
{
    if chunks.len() > 0 {
        let before = chunks.drop_last();
        assert forall|i: int| 0 <= i < before.len() implies (#[trigger] before[i]).len() > 0 by {
            assert(before[i] == chunks[i]);
        }
        law_scan_is_search(before, needle);
        assert(chunks.last() == chunks[chunks.len() - 1]);
        if before.len() > 0 && occurs(joined(before), needle) {
            lemma_still_occurs(joined(before), chunks.last(), needle);
        }
    }
}

/// Whether these are bytes between the quotes of a JSON string: every quote among them is escaped.
pub open spec fn quotes_escaped(body: Seq<u8>) -> bool {
    forall|i: int|
        0 <= i < body.len() && #[trigger] body[i] == 0x22 ==> i > 0 && body[i - 1] == 0x5c
}

/// A transcript that merely quotes how a usage record names its type does not match: the marker
/// does not occur inside a JSON string.
pub proof fn law_quoted_marker_is_not_found(body: Seq<u8>)
    requires
        quotes_escaped(body),
    ensures
        !occurs(body, encode_utf8("\"type\":\"token_usage_record\""@)),
{
    reveal_strlit("\"type\":\"token_usage_record\"");
    let marker = "\"type\":\"token_usage_record\""@;
    let needle = encode_utf8(marker);
    vstd::utf8::is_ascii_chars_encode_utf8(marker);
    if occurs(body, needle) {
        let at = choose|at: int| occurs_at(body, needle, at);
        assert(needle[5] == 0x22);
        assert(needle[4] == 0x65);
        let found = body.subrange(at, at + needle.len());
        assert(found[5] == body[at + 5]);
        assert(found[4] == body[at + 4]);
    }
}

/// No bytes mean that there are none left; any others decide by whether the needle occurs in what
/// was seen with them. Less than a needle is kept of what was seen.
pub proof fn law_chunks_decide(seen: Seq<u8>, chunk: Seq<u8>, needle: Seq<u8>)
    ensures
        chunk.len() == 0 ==> verdict(seen, chunk, needle) is Missing,
        chunk.len() > 0 ==> (verdict(seen, chunk, needle) is Found <==> occurs(
            seen + chunk,
            needle,
        )),
        chunk.len() > 0 ==> !(verdict(seen, chunk, needle) is Missing),
        needle.len() > 0 ==> overlap(needle) + 1 == needle.len(),
{
}

} // verus!
