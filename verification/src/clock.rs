//! Points in time as plain numbers, the reading of the clock, and the
//! writing of a point in time as a calendar date.

use chrono::{DateTime, Utc};
use vstd::prelude::*;

verus! {

/// A point in time: whole seconds since 1970-01-01 00:00:00 UTC, and the
/// nanoseconds since the last whole second.
#[derive(Clone, Copy, Debug, PartialEq, Eq, Structural)]
pub struct Timestamp {
    pub secs: i64,
    pub nanos: u32,
}

/// The pattern that writes a time to the hour: `YYYY-MM-DD HH:00`.
pub open spec fn hour_pattern() -> Seq<char> {
    "%Y-%m-%d %H:00"@
}

/// The pattern that writes a time to the second: `YYYY-MM-DD HH:MM:SS`.
pub open spec fn second_pattern() -> Seq<char> {
    "%Y-%m-%d %H:%M:%S"@
}

/// The UTC date and time that lies `secs` seconds and `nanos` nanoseconds
/// after the epoch, written by `pattern`; `None` where the calendar cannot
/// represent that point.
pub uninterp spec fn formatted_utc(secs: i64, nanos: u32, pattern: Seq<char>) -> Option<Seq<char>>;

/// The code points of an optional string.
pub open spec fn opt_text(s: Option<String>) -> Option<Seq<char>> {
    match s {
        Some(s) => Some(s@),
        None => None,
    }
}

/// Whether the calendar can represent `t`.
pub open spec fn in_calendar(t: Timestamp) -> bool {
    formatted_utc(t.secs, t.nanos, hour_pattern()) is Some
}

/// Reads the clock. Trusted: `Utc::now` of the chrono crate, taken apart
/// with `timestamp` and `timestamp_subsec_nanos`. Which point comes back
/// differs from call to call; claimed is only that the calendar holds it:
/// chrono builds the current time with `DateTime::from_timestamp`, which
/// it documents to round-trip with the two accessors.
#[verifier::external_body]
pub(crate) fn now() -> (t: Timestamp)
    ensures
        in_calendar(t),
{
    let t = Utc::now();
    Timestamp { secs: t.timestamp(), nanos: t.timestamp_subsec_nanos() }
}

/// Writes a point in time by one of the two patterns above. Trusted:
/// `DateTime::from_timestamp` of the chrono crate, which returns `None` for
/// seconds outside its calendar or for nanoseconds that name no instant of
/// that second, followed by `format`; both depend on the arguments alone.
/// Other patterns are left out because `format` fails on a malformed one.
#[verifier::external_body]
pub(crate) fn format_utc(secs: i64, nanos: u32, pattern: &str) -> (text: Option<String>)
    requires
        pattern@ == hour_pattern() || pattern@ == second_pattern(),
    ensures
        opt_text(text) == formatted_utc(secs, nanos, pattern@),
{
    match DateTime::<Utc>::from_timestamp(secs, nanos) {
        Some(d) => Some(d.format(pattern).to_string()),
        None => None,
    }
}

} // verus!
