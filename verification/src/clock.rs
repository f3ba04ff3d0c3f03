//! The time stamps of transcript lines.

use vstd::prelude::*;

verus! {

/// An instant, and the offset from UTC it was written with.
#[derive(Debug, Clone, Copy, PartialEq)]
pub struct Timestamp {
    /// Nanoseconds since the Unix epoch.
    pub unix_nanos: i128,
    /// Seconds east of UTC.
    pub offset_seconds: i32,
}

/// The instant that a text written as RFC 3339 asks for names, none for any other text.
pub uninterp spec fn rfc3339(text: Seq<char>) -> Option<Timestamp>;

/// `time::OffsetDateTime::parse` with the well-known format `Rfc3339`: whether the text is a date
/// and time of that format, and which, depends on the text alone.
#[verifier::external_body]
pub(crate) fn parse_rfc3339(text: &str) -> (r: Option<Timestamp>)
    ensures
        r == rfc3339(text@),
{
    let parsed = time::OffsetDateTime::parse(text, &time::format_description::well_known::Rfc3339);
    match parsed {
        Ok(at) => Some(Timestamp {
            unix_nanos: at.unix_timestamp_nanos(),
            offset_seconds: at.offset().whole_seconds(),
        }),
        Err(_) => None,
    }
}

} // verus!
