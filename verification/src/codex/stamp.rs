//! Tells each line of one rollout what only its reader knows.

use vstd::prelude::*;

use crate::codex::message::{CodexLine, CodexMessage, LineContext};
use crate::json::{at, Json};
use crate::model::SessionId;

verus! {

/// Tells each line of one rollout what only its reader knows (see [`LineContext`]).
#[derive(Debug)]
pub struct Stamper {
    pub session: SessionId,
    /// Where reading started: lines before it were never seen, so whether one of them was a
    /// `token_usage_record` is looked up in the file, once, when a `token_count` needs to know.
    pub before: u64,
    /// Whether a line so far was a `token_usage_record`; `None` until known.
    pub usage_recorded: Option<bool>,
}

/// Whether the lines before the first one read have to be searched for a usage record: a
/// `token_count` needs to know, and it is not known yet.
pub open spec fn must_look(recorded: Option<bool>, line: CodexLine) -> bool {
    !line.is_usage_record() && recorded is None && line.is_token_count()
}

/// Whether a line so far was a usage record, once `line` is read; `found` is what a search of the
/// lines before the first one read gave.
pub open spec fn recorded_after(recorded: Option<bool>, line: CodexLine, found: bool) -> Option<
    bool,
> {
    if line.is_usage_record() {
        Some(true)
    } else if must_look(recorded, line) {
        Some(found)
    } else {
        recorded
    }
}

/// A line with what the reader of its rollout knows.
pub open spec fn stamped(line: CodexLine, session: Seq<char>, recorded: Option<bool>) -> CodexLine {
    CodexLine { session: Some(session), usage_recorded: recorded == Some(true), ..line }
}

impl Stamper {
    /// The offset up to which the file is to be searched for a usage record before `message` can
    /// be stamped, or `None` where no search is needed.
    pub fn lookup(&self, message: &CodexMessage) -> (r: Option<u64>)
        ensures
            r == (if must_look(self.usage_recorded, message@) {
                Some(self.before)
            } else {
                None
            }),
    {
        if !message.is_usage_record() && self.usage_recorded.is_none() && message.is_token_count() {
            Some(self.before)
        } else {
            None
        }
    }

    /// Stamps a line; `found` tells whether the search that [`Stamper::lookup`] asked for, if it
    /// did, found a usage record.
    pub fn stamp(&mut self, message: &mut CodexMessage, found: bool)
        ensures
            final(self).session == old(self).session,
            final(self).before == old(self).before,
            final(self).usage_recorded == recorded_after(
                old(self).usage_recorded,
                old(message)@,
                found,
            ),
            final(message)@ == stamped(
                old(message)@,
                old(self).session@,
                final(self).usage_recorded,
            ),
    {
        if message.is_usage_record() {
            self.usage_recorded = Some(true);
        } else if self.usage_recorded.is_none() && message.is_token_count() {
            self.usage_recorded = Some(found);
        }
        message.context = LineContext {
            session: Some(SessionId(self.session.0.clone())),
            usage_recorded: self.usage_recorded == Some(true),
        };
    }
}

/// What is known after reading lines one after the other.
pub open spec fn recorded_through(
    recorded: Option<bool>,
    lines: Seq<CodexLine>,
    found: bool,
) -> Option<bool>
    decreases lines.len(),
{
    if lines.len() == 0 {
        recorded
    } else {
        recorded_after(
            recorded_through(recorded, lines.drop_last(), found),
            lines.last(),
            found,
        )
    }
}

/// Line `i` as a reader hands it on.
pub open spec fn line_read(
    recorded: Option<bool>,
    session: Seq<char>,
    lines: Seq<CodexLine>,
    found: bool,
    i: int,
) -> CodexLine {
    stamped(lines[i], session, recorded_through(recorded, lines.take(i + 1), found))
}

/// Whether one of the lines is a usage record.
pub open spec fn has_record(lines: Seq<CodexLine>) -> bool {
    exists|i: int| 0 <= i < lines.len() && (#[trigger] lines[i]).is_usage_record()
}

/// One line more holds a record where the lines before it do, or where it is one.
proof fn lemma_has_record(lines: Seq<CodexLine>)
    requires
        lines.len() > 0,
    ensures
        has_record(lines) == (has_record(lines.drop_last()) || lines.last().is_usage_record()),
{
    let rest = lines.drop_last();
    if has_record(lines) {
        let i = choose|i: int| 0 <= i < lines.len() && (#[trigger] lines[i]).is_usage_record();
        if i < rest.len() {
            assert(rest[i].is_usage_record());
        }
    }
    if has_record(rest) {
        let i = choose|i: int| 0 <= i < rest.len() && (#[trigger] rest[i]).is_usage_record();
        assert(lines[i].is_usage_record());
    }
    if lines.last().is_usage_record() {
        assert(lines[lines.len() - 1].is_usage_record());
    }
}

/// A reader that starts at the beginning always knows whether it has read a usage record, and
/// never has to search for one.
pub proof fn law_whole_reader_knows(lines: Seq<CodexLine>, found: bool)
    ensures
        recorded_through(Some(false), lines, found) == Some(has_record(lines)),
    decreases lines.len(),
{
    if lines.len() > 0 {
        law_whole_reader_knows(lines.drop_last(), found);
        lemma_has_record(lines);
    }
}

/// A search is asked for at most once: once it was, or once a record was read, the answer stays
/// known.
pub proof fn law_one_search(recorded: Option<bool>, line: CodexLine, next: CodexLine, found: bool)
    ensures
        must_look(recorded, line) ==> !must_look(recorded_after(recorded, line, found), next),
        recorded is Some ==> !must_look(recorded, next),
        recorded is Some ==> recorded_after(recorded, line, found) is Some,
        recorded == Some(true) ==> recorded_after(recorded, line, found) == Some(true),
{
}

/// What a resumed reader knows: nothing, or whether the lines skipped and read hold a record.
proof fn lemma_resumed(skipped: Seq<CodexLine>, lines: Seq<CodexLine>)
    ensures
        ({
            let known = recorded_through(None, lines, has_record(skipped));
            &&& known is None ==> !has_record(lines)
            &&& known matches Some(recorded) ==> recorded == has_record(skipped + lines)
            &&& lines.len() > 0 && (lines.last().is_token_count() || lines.last().is_usage_record())
                ==> known is Some
        }),
    decreases lines.len(),
{
    if lines.len() > 0 {
        lemma_resumed(skipped, lines.drop_last());
        lemma_has_record(lines);
        lemma_has_record(skipped + lines);
        assert((skipped + lines).drop_last() =~= skipped + lines.drop_last());
        lemma_joined_records(skipped, lines.drop_last());
    } else {
        assert(skipped + lines =~= skipped);
    }
}

/// Two runs of lines together hold a record where one of them does.
proof fn lemma_joined_records(a: Seq<CodexLine>, b: Seq<CodexLine>)
    ensures
        has_record(a + b) == (has_record(a) || has_record(b)),
{
    let all = a + b;
    if has_record(all) {
        let i = choose|i: int| 0 <= i < all.len() && (#[trigger] all[i]).is_usage_record();
        if i < a.len() {
            assert(a[i].is_usage_record());
        } else {
            assert(b[i - a.len()].is_usage_record());
        }
    }
    if has_record(a) {
        let i = choose|i: int| 0 <= i < a.len() && (#[trigger] a[i]).is_usage_record();
        assert(all[i].is_usage_record());
    }
    if has_record(b) {
        let i = choose|i: int| 0 <= i < b.len() && (#[trigger] b[i]).is_usage_record();
        assert(all[i + a.len()].is_usage_record());
    }
}

/// A reader resumed past some lines, which looks those up in the file, hands on every usage line
/// with the same usage, call and id as one that reads the rollout from its beginning.
pub proof fn law_resumed_reader_agrees(
    session: Seq<char>,
    skipped: Seq<CodexLine>,
    lines: Seq<CodexLine>,
    i: int,
    other: bool,
)
    requires
        0 <= i < lines.len(),
        lines[i].is_token_count() || lines[i].is_usage_record(),
    ensures
        line_read(None, session, lines, has_record(skipped), i) == line_read(
            Some(false),
            session,
            skipped + lines,
            other,
            skipped.len() + i,
        ),
{
    let read = lines.take(i + 1);
    lemma_resumed(skipped, read);
    assert((skipped + lines).take(skipped.len() + i + 1) =~= skipped + read);
    law_whole_reader_knows(skipped + read, other);
}

/// Over a whole rollout each call is reported once: a usage record always reports its own call,
/// and a `token_count` snapshot reports usage, a call or an id, those it would report alone, only
/// until records begin.
pub proof fn law_each_call_once(session: Seq<char>, lines: Seq<CodexLine>, found: bool, i: int)
    requires
        0 <= i < lines.len(),
    ensures
        ({
            let line = line_read(Some(false), session, lines, found, i);
            let alone = stamped(lines[i], session, Some(false));
            let recorded = has_record(lines.take(i));
            &&& lines[i].is_usage_record() || !recorded ==> {
                &&& line.usage() == alone.usage()
                &&& line.usage_turn() == alone.usage_turn()
                &&& line.id() == alone.id()
            }
            &&& !lines[i].is_usage_record() && recorded ==> {
                &&& line.usage() is None
                &&& line.usage_turn() is None
                &&& lines[i].is_token_count() ==> line.id() is None
            }
        }),
{
    reveal_strlit("token_usage_record");
    reveal_strlit("event_msg");
    assert("token_usage_record"@.len() != "event_msg"@.len());
    let read = lines.take(i + 1);
    law_whole_reader_knows(read, found);
    lemma_has_record(read);
    assert(read.drop_last() =~= lines.take(i));
    assert(read.last() == lines[i]);
}

/// A stamped line knows its session and whether usage is recorded, and is else as it was.
pub proof fn law_stamps(line: CodexLine, session: Seq<char>, recorded: Option<bool>)
    ensures
        ({
            let read = stamped(line, session, recorded);
            &&& read.session == Some(session)
            &&& read.usage_recorded <==> recorded == Some(true)
            &&& read.kind == line.kind
            &&& read.timestamp == line.timestamp
            &&& read.payload == line.payload
        }),
{
}

/// A search is asked for where a `token_count` needs to know and it is not known, and nowhere else;
/// what it found is then known. A usage record makes known that there is one, and no other line
/// makes anything known.
pub proof fn law_what_becomes_known(recorded: Option<bool>, line: CodexLine, found: bool)
    ensures
        must_look(recorded, line) <==> recorded is None && line.kind == "event_msg"@ && (
        line.payload matches Some(payload) && at(payload, "type"@) == Json::Str("token_count"@)),
        must_look(recorded, line) ==> recorded_after(recorded, line, found) == Some(found),
        line.kind == "token_usage_record"@ ==> recorded_after(recorded, line, found) == Some(true),
        !must_look(recorded, line) && line.kind != "token_usage_record"@ ==> recorded_after(
            recorded,
            line,
            found,
        ) == recorded,
{
    reveal_strlit("token_usage_record");
    reveal_strlit("event_msg");
    assert("token_usage_record"@.len() != "event_msg"@.len());
}

} // verus!
