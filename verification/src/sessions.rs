//! Where a harness keeps its session files, and which files are sessions.
//!
//! Paths, change signals and thread pools are handles that belong to the program around this
//! library: they are type parameters here, carried along and never looked into.

use vstd::prelude::*;
use vstd::string::*;

use crate::model::viewed;
use crate::text;
use crate::text::ends;

verus! {

/// A directory: `base`, and below it one directory after the other.
#[derive(Debug)]
pub struct Root<'a, P> {
    pub base: &'a P,
    pub below: Vec<&'static str>,
}

impl<'a, P> Root<'a, P> {
    /// Whether this is `base` itself.
    pub open spec fn is(self, base: P) -> bool {
        *self.base == base && self.below@.len() == 0
    }

    /// Whether this is the directory `name` right below `base`.
    pub open spec fn is_below(self, base: P, name: Seq<char>) -> bool {
        *self.base == base && self.below@.len() == 1 && self.below@[0]@ == name
    }

    /// Whether this is the directory `inner` below the directory `outer` below `base`.
    pub open spec fn is_two_below(self, base: P, outer: Seq<char>, inner: Seq<char>) -> bool {
        *self.base == base && self.below@.len() == 2 && self.below@[0]@ == outer && self.below@[1]@
            == inner
    }
}

/// Why sessions cannot be listed or watched.
#[derive(Debug, PartialEq)]
pub enum RuntimeError<P> {
    /// The root is no directory.
    NotFound(P),
}

/// `name` without the extension `.jsonl`; none where that leaves nothing, or where it has another
/// extension or none.
pub open spec fn jsonl_stem(name: Seq<char>) -> Option<Seq<char>> {
    if ends(name, ".jsonl"@) && name.len() > ".jsonl"@.len() {
        Some(name.take(name.len() - ".jsonl"@.len()))
    } else {
        None
    }
}

/// The stem of a `jsonl` file's name, or `None` for any other file.
pub fn stem_of_jsonl<'a>(name: &'a str) -> (r: Option<&'a str>)
    ensures
        viewed(r) == jsonl_stem(name@),
{
    if !text::ends_with(name, ".jsonl") {
        return None;
    }
    let total = name.unicode_len();
    let extension = ".jsonl".unicode_len();
    if total > extension {
        let stem = name.substring_char(0, total - extension);
        assert(stem@ =~= name@.take(name@.len() - ".jsonl"@.len()));
        Some(stem)
    } else {
        None
    }
}

/// A file named after a session gives the session's name back.
pub proof fn law_stem_is_read_back(id: Seq<char>)
    requires
        id.len() > 0,
    ensures
        jsonl_stem(id + ".jsonl"@) == Some(id),
{
    let name = id + ".jsonl"@;
    assert(name.subrange(name.len() - ".jsonl"@.len(), name.len() as int) =~= ".jsonl"@);
    assert(name.take(name.len() - ".jsonl"@.len()) =~= id);
}

/// Only a file that is named so is a session: the stem is what stands before the extension, and is
/// not empty.
pub proof fn law_stems_are_before_the_extension(name: Seq<char>)
    ensures
        jsonl_stem(name) matches Some(stem) ==> stem.len() > 0 && name == stem + ".jsonl"@,
        jsonl_stem(name) is None <==> !ends(name, ".jsonl"@) || name.len() <= ".jsonl"@.len(),
{
    if ends(name, ".jsonl"@) {
        let n = name.len() - ".jsonl"@.len();
        assert(name =~= name.take(n) + name.subrange(n, name.len() as int));
    }
}

} // verus!
