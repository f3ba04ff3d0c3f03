//! Where Codex keeps its rollouts, and the session that each one is.

use vstd::prelude::*;
use vstd::string::*;

use crate::codex::stamp::Stamper;
use crate::model::SessionId;
use crate::sessions::{jsonl_stem, stem_of_jsonl, Root, RuntimeError};
use crate::text;
use crate::text::{after, begins};

verus! {

/// How many dashes a text holds.
pub open spec fn dashes(text: Seq<char>) -> nat
    decreases text.len(),
{
    if text.len() == 0 {
        0
    } else {
        dashes(text.drop_first()) + if text[0] == '-' {
            1nat
        } else {
            0nat
        }
    }
}

/// The last five groups between dashes, or all where there are fewer: the longest end of `stem`
/// that holds at most four dashes.
pub open spec fn last_groups(stem: Seq<char>) -> Seq<char>
    decreases stem.len(),
{
    if dashes(stem) <= 4 || stem.len() == 0 {
        stem
    } else {
        last_groups(stem.drop_first())
    }
}

/// The session of the rollout file `name`: none for a file that is no rollout.
pub open spec fn rollout_session(name: Seq<char>) -> Option<Seq<char>> {
    if begins(name, "rollout-"@) {
        match jsonl_stem(name) {
            Some(stem) => Some(last_groups(stem)),
            None => None,
        }
    } else {
        None
    }
}

/// Fewer characters hold no more dashes.
proof fn lemma_dashes_fall(text: Seq<char>, from: int)
    requires
        0 <= from <= text.len(),
    ensures
        dashes(after(text, from)) <= dashes(text),
    decreases from,
{
    if from > 0 {
        assert(after(text.drop_first(), from - 1) =~= after(text, from));
        lemma_dashes_fall(text.drop_first(), from - 1);
    } else {
        assert(after(text, 0) =~= text);
    }
}

/// The end from `from` on is what [`last_groups`] leaves where it holds at most four dashes and
/// one more character would bring a fifth.
proof fn lemma_last_groups(stem: Seq<char>, from: int)
    requires
        0 <= from <= stem.len(),
        dashes(after(stem, from)) <= 4,
        from == 0 || dashes(after(stem, from - 1)) > 4,
    ensures
        last_groups(stem) == after(stem, from),
    decreases from,
{
    if from == 0 {
        assert(after(stem, 0) =~= stem);
    } else {
        lemma_dashes_fall(stem, from - 1);
        let rest = stem.drop_first();
        assert(after(rest, from - 1) =~= after(stem, from));
        if from > 1 {
            assert(after(rest, from - 2) =~= after(stem, from - 1));
        }
        lemma_last_groups(rest, from - 1);
    }
}

/// The last five groups between dashes, or all where there are fewer.
fn id_in_stem<'a>(stem: &'a str) -> (r: &'a str)
    ensures
        r@ == last_groups(stem@),
{
    let chars = text::chars_of(stem);
    let total = chars.len();
    let mut from: usize = total;
    let mut count: usize = 0;
    assert(after(stem@, total as int) =~= Seq::<char>::empty());
    while from > 0
        invariant
            chars@ == stem@,
            total == chars.len(),
            from <= total,
            count == dashes(after(stem@, from as int)),
            count <= 4,
        decreases from,
    {
        assert(after(stem@, from - 1).drop_first() =~= after(stem@, from as int));
        if chars[from - 1] == '-' {
            if count == 4 {
                proof {
                    lemma_last_groups(stem@, from as int);
                }
                return stem.substring_char(from, total);
            }
            count += 1;
        }
        from -= 1;
    }
    proof {
        lemma_last_groups(stem@, 0);
        assert(after(stem@, 0) =~= stem@);
    }
    stem
}

/// The sessions of Codex, under `root` or where Codex puts them.
#[derive(Debug, Clone)]
pub struct CodexSessions<P, B> {
    pub root: Option<P>,
    /// Runs every file read of the sessions this finds.
    pub pool: B,
}

impl<P, B> CodexSessions<P, B> {
    /// The directory that holds the rollouts: the root given, else `sessions` in the configured
    /// directory, else `.codex/sessions` in the home directory.
    pub fn resolve_root<'a>(&'a self, codex_home: Option<&'a P>, home: &'a P) -> (r: Root<'a, P>)
        ensures
            match (self.root, codex_home) {
                (Some(root), _) => r.is(root),
                (None, Some(configured)) => r.is_below(*configured, "sessions"@),
                (None, None) => r.is_two_below(*home, ".codex"@, "sessions"@),
            },
    {
        let mut below: Vec<&'static str> = Vec::new();
        if let Some(root) = &self.root {
            return Root { base: root, below };
        }
        let base = match codex_home {
            Some(configured) => configured,
            None => {
                below.push(".codex");
                home
            },
        };
        below.push("sessions");
        Root { base, below }
    }

    /// A listener on the directory `root`, or the error that it is none.
    pub fn listener(&self, root: P, is_dir: bool) -> (r: Result<
        CodexListener<P, B>,
        RuntimeError<P>,
    >) where B: Clone
        ensures
            match r {
                Ok(listener) => is_dir && listener.root == root && cloned(self.pool, listener.pool),
                Err(RuntimeError::NotFound(missing)) => !is_dir && missing == root,
            },
    {
        if !is_dir {
            return Err(RuntimeError::NotFound(root));
        }
        Ok(CodexListener { root, pool: self.pool.clone() })
    }
}

/// Listens for the sessions under a directory.
#[derive(Debug, Clone)]
pub struct CodexListener<P, B> {
    pub root: P,
    pub pool: B,
}

impl<P, B> CodexListener<P, B> {
    /// A read-once session for an accepted rollout file (no change signal), or `None`. `name` is
    /// the last component of `path`, where it has one.
    pub fn open_session<C>(name: Option<&str>, is_file: bool, path: P, pool: B) -> (r: Option<
        CodexSession<P, C, B>,
    >)
        ensures
            r is Some <==> is_file && name is Some && rollout_session(name->0@) is Some,
            r matches Some(session) ==> {
                &&& rollout_session(name->0@) == Some(session.id@)
                &&& session.path == path
                &&& session.changes is None
                &&& session.pool == pool
            },
    {
        match name {
            Some(name) => {
                if !is_file || !text::starts_with(name, "rollout-") {
                    return None;
                }
                match stem_of_jsonl(name) {
                    Some(stem) => {
                        let id = id_in_stem(stem).to_owned();
                        Some(CodexSession::open(SessionId(id), path, pool))
                    },
                    None => None,
                }
            },
            None => None,
        }
    }

    /// The session for an accepted file, which follows `changes`, paired with the `signal` that
    /// the watcher keeps alive for as long as the file exists.
    pub fn accept<C, S>(
        name: Option<&str>,
        is_file: bool,
        path: P,
        pool: B,
        signal: S,
        changes: C,
    ) -> (r: Option<(CodexSession<P, C, B>, S)>)
        ensures
            r is Some <==> is_file && name is Some && rollout_session(name->0@) is Some,
            r matches Some((session, kept)) ==> {
                &&& rollout_session(name->0@) == Some(session.id@)
                &&& session.path == path
                &&& session.changes == Some(changes)
                &&& session.pool == pool
                &&& kept == signal
            },
    {
        match Self::open_session(name, is_file, path, pool) {
            Some(session) => {
                let mut session = session;
                session.changes = Some(changes);
                Some((session, signal))
            },
            None => None,
        }
    }
}

/// One rollout.
#[derive(Debug, Clone)]
pub struct CodexSession<P, C, B> {
    pub id: SessionId,
    pub path: P,
    /// Wakes the reader on each change to the file; `None` reads it once.
    pub changes: Option<C>,
    pub pool: B,
}

impl<P, C, B> CodexSession<P, C, B> {
    /// A session over the file as it stands: its messages end at the file's end.
    pub fn open(id: SessionId, path: P, pool: B) -> (r: Self)
        ensures
            r.id == id,
            r.path == path,
            r.changes is None,
            r.pool == pool,
    {
        CodexSession { id, path, changes: None, pool }
    }

    /// The session's id.
    pub fn id(&self) -> (r: SessionId)
        ensures
            r@ == self.id@,
    {
        SessionId(self.id.0.clone())
    }

    /// The stamper of a reader that starts at the offset `before`. From the beginning of the file
    /// no line was missed, so no usage record was.
    pub fn stamper(&self, before: u64) -> (r: Stamper)
        ensures
            r.session@ == self.id@,
            r.before == before,
            r.usage_recorded == (if before == 0 {
                Some(false)
            } else {
                None
            }),
    {
        Stamper {
            session: self.id(),
            before,
            usage_recorded: if before == 0 {
                Some(false)
            } else {
                None
            },
        }
    }
}

/// A rollout's file is named after when it started and its session: whatever stands before it, a
/// session id of five groups is read back from the name.
pub proof fn law_rollout_name(start: Seq<char>, id: Seq<char>)
    requires
        dashes(id) == 4,
    ensures
        rollout_session("rollout-"@ + start + "-"@ + id + ".jsonl"@) == Some(id),
{
    let stem = "rollout-"@ + start + "-"@ + id;
    let name = stem + ".jsonl"@;
    reveal_strlit("-");
    reveal_strlit("rollout-");
    assert(name.subrange(0, "rollout-"@.len() as int) =~= "rollout-"@);
    assert(name.subrange(name.len() - ".jsonl"@.len(), name.len() as int) =~= ".jsonl"@);
    assert(name.take(name.len() - ".jsonl"@.len()) =~= stem);
    let from = stem.len() - id.len();
    assert(after(stem, from) =~= id);
    assert(after(stem, from - 1).drop_first() =~= id);
    lemma_last_groups(stem, from);
}

/// A rollout's session is the end of its stem, with at most four dashes: all of the stem, or what
/// stands behind the fifth dash from its end. Only a file that is named as a rollout has one.
pub proof fn law_rollout_sessions(name: Seq<char>)
    ensures
        rollout_session(name) is Some <==> begins(name, "rollout-"@) && jsonl_stem(name) is Some,
        rollout_session(name) matches Some(id) ==> {
            let stem = jsonl_stem(name)->0;
            &&& dashes(id) <= 4
            &&& id.len() <= stem.len()
            &&& id == after(stem, stem.len() - id.len())
            &&& id.len() < stem.len() ==> dashes(id) == 4 && stem[stem.len() - id.len() - 1] == '-'
        },
{
    if let Some(stem) = jsonl_stem(name) {
        lemma_end_of_stem(stem);
    }
}

/// What [`last_groups`] leaves is an end of the stem.
proof fn lemma_end_of_stem(stem: Seq<char>)
    ensures
        ({
            let id = last_groups(stem);
            &&& dashes(id) <= 4
            &&& id.len() <= stem.len()
            &&& id == after(stem, stem.len() - id.len())
            &&& id.len() < stem.len() ==> dashes(id) == 4 && stem[stem.len() - id.len() - 1] == '-'
        }),
    decreases stem.len(),
{
    let id = last_groups(stem);
    if dashes(stem) <= 4 || stem.len() == 0 {
        assert(after(stem, 0) =~= stem);
    } else {
        let rest = stem.drop_first();
        lemma_end_of_stem(rest);
        let n = stem.len() - id.len();
        assert(after(rest, n - 1) =~= after(stem, n));
        if id.len() < rest.len() {
            assert(rest[rest.len() - id.len() - 1] == stem[n - 1]);
        } else {
            assert(after(rest, 0) =~= rest);
        }
    }
}

/// Dashes are counted one by one.
pub proof fn law_dashes_are_counted(text: Seq<char>, c: char)
    ensures
        dashes(Seq::<char>::empty()) == 0,
        dashes(seq![c] + text) == dashes(text) + if c == '-' {
            1nat
        } else {
            0nat
        },
{
    assert((seq![c] + text).drop_first() =~= text);
}

} // verus!
