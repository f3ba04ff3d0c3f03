//! Where `ccode` keeps its transcripts, and the session that each one is.

use vstd::prelude::*;

use crate::model::SessionId;
use crate::sessions::{jsonl_stem, stem_of_jsonl, Root, RuntimeError};

verus! {

/// The sessions of `ccode`, under `root` or where `ccode` puts them.
#[derive(Debug, Clone)]
pub struct CcodeSessions<P, B> {
    pub root: Option<P>,
    /// Runs every file read of the sessions this finds.
    pub pool: B,
}

impl<P, B> CcodeSessions<P, B> {
    /// The directory that holds the transcripts: the root given, else `projects` in the configured
    /// directory, else `projects` in the directory `own` of the home directory. `own` is the name
    /// of the directory that `ccode` makes there for itself. It is not spelled out in this crate:
    /// the program around the library supplies it, and nothing is stated of it here.
    pub fn resolve_root<'a>(
        &'a self,
        config_dir: Option<&'a P>,
        home: &'a P,
        own: &'static str,
    ) -> (r: Root<'a, P>)
        ensures
            match (self.root, config_dir) {
                (Some(root), _) => r.is(root),
                (None, Some(configured)) => r.is_below(*configured, "projects"@),
                (None, None) => r.is_two_below(*home, own@, "projects"@),
            },
    {
        let mut below: Vec<&'static str> = Vec::new();
        if let Some(root) = &self.root {
            return Root { base: root, below };
        }
        let base = match config_dir {
            Some(configured) => configured,
            None => {
                below.push(own);
                home
            },
        };
        below.push("projects");
        Root { base, below }
    }

    /// A listener on the directory `root`, or the error that it is none.
    pub fn listener(&self, root: P, is_dir: bool) -> (r: Result<
        CcodeListener<P, B>,
        RuntimeError<P>,
    >) where B: Clone
        ensures
            match r {
                Ok(listener) => is_dir && listener.root == root && cloned(self.pool, listener.pool),
                Err(RuntimeError::NotFound(missing)) => !is_dir && missing == root,
            },
    {
        if !is_dir {
            return Err(RuntimeError::NotFound(root));
        }
        Ok(CcodeListener { root, pool: self.pool.clone() })
    }
}

/// Listens for the sessions under a directory.
#[derive(Debug, Clone)]
pub struct CcodeListener<P, B> {
    pub root: P,
    pub pool: B,
}

impl<P, B> CcodeListener<P, B> {
    /// A read-once session for an accepted `jsonl` file (no change signal), or `None`. `name` is
    /// the last component of `path`, where it has one.
    pub fn open_session<C>(name: Option<&str>, is_file: bool, path: P, pool: B) -> (r: Option<
        CcodeSession<P, C, B>,
    >)
        ensures
            r is Some <==> is_file && name is Some && jsonl_stem(name->0@) is Some,
            r matches Some(session) ==> {
                &&& jsonl_stem(name->0@) == Some(session.id@)
                &&& session.path == path
                &&& session.changes is None
                &&& session.pool == pool
            },
    {
        if !is_file {
            return None;
        }
        match name {
            Some(name) => match stem_of_jsonl(name) {
                Some(stem) => Some(CcodeSession::open(SessionId(stem.to_owned()), path, pool)),
                None => None,
            },
            None => None,
        }
    }

    /// The session for an accepted file, which follows `changes`, paired with the `signal` that
    /// the watcher keeps alive for as long as the file exists.
    pub fn accept<C, S>(
        name: Option<&str>,
        is_file: bool,
        path: P,
        pool: B,
        signal: S,
        changes: C,
    ) -> (r: Option<(CcodeSession<P, C, B>, S)>)
        ensures
            r is Some <==> is_file && name is Some && jsonl_stem(name->0@) is Some,
            r matches Some((session, kept)) ==> {
                &&& jsonl_stem(name->0@) == Some(session.id@)
                &&& session.path == path
                &&& session.changes == Some(changes)
                &&& session.pool == pool
                &&& kept == signal
            },
    {
        match Self::open_session(name, is_file, path, pool) {
            Some(session) => {
                let mut session = session;
                session.changes = Some(changes);
                Some((session, signal))
            },
            None => None,
        }
    }
}

/// One transcript.
#[derive(Debug, Clone)]
pub struct CcodeSession<P, C, B> {
    pub id: SessionId,
    pub path: P,
    /// Wakes the reader on each change to the file; `None` reads it once.
    pub changes: Option<C>,
    pub pool: B,
}

impl<P, C, B> CcodeSession<P, C, B> {
    /// A session over the file as it stands: its messages end at the file's end.
    pub fn open(id: SessionId, path: P, pool: B) -> (r: Self)
        ensures
            r.id == id,
            r.path == path,
            r.changes is None,
            r.pool == pool,
    {
        CcodeSession { id, path, changes: None, pool }
    }

    /// The session's id.
    pub fn id(&self) -> (r: SessionId)
        ensures
            r@ == self.id@,
    {
        SessionId(self.id.0.clone())
    }
}

} // verus!
