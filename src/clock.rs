//! Points in time, and their text in wire messages.

use std::fmt::Write;
use vstd::prelude::*;

verus! {

/// A point in UTC time: whole seconds since the Unix epoch and the
/// nanoseconds past that second (past 999,999,999 only in a leap second).
#[derive(Clone, Copy, Debug, PartialEq, Eq, Structural)]
pub struct Timestamp {
    pub secs: i64,
    pub nanos: u32,
}

/// The layout of a timestamp in messages: `2021-03-04T05:06:07.000000008Z`.
pub const DATE_FORMAT: &'static str = "%Y-%m-%dT%H:%M:%S.%fZ";

/// What `chrono` writes for the UTC time `secs`, `nanos` in the layout `fmt`,
/// if that time can be represented and the layout is well-formed.
pub uninterp spec fn utc_formatted(secs: int, nanos: int, fmt: Seq<char>) -> Option<Seq<char>>;

/// Relies on `chrono::Utc::now`: the current time, split into seconds and
/// nanoseconds.
#[verifier::external_body]
pub(crate) fn now() -> (r: Timestamp)
    ensures
        r.nanos < 2_000_000_000,
{
    let t = chrono::Utc::now();
    Timestamp { secs: t.timestamp(), nanos: t.timestamp_subsec_nanos() }
}

/// Relies on `chrono::DateTime::<Utc>::from_timestamp` and
/// `DateTime::format`, written out without panicking on a bad layout.
#[verifier::external_body]
fn format_utc(t: Timestamp, fmt: &str) -> (r: Option<String>)
    ensures
        r is None <==> utc_formatted(t.secs as int, t.nanos as int, fmt@) is None,
        r matches Some(s) ==> utc_formatted(t.secs as int, t.nanos as int, fmt@) == Some(s@),
{
    let d = chrono::DateTime::<chrono::Utc>::from_timestamp(t.secs, t.nanos)?;
    let mut out = String::new();
    write!(out, "{}", d.format(fmt)).ok()?;
    Some(out)
}

/// The text of `t` in messages, or the empty text where the time cannot be
/// written.
pub open spec fn timestamp_text_of(t: Timestamp) -> Seq<char> {
    match utc_formatted(t.secs as int, t.nanos as int, DATE_FORMAT@) {
        Some(s) => s,
        None => Seq::empty(),
    }
}

/// The text of `t` in messages.
pub fn timestamp_text(t: Timestamp) -> (r: String)
    ensures
        r@ == timestamp_text_of(t),
{
    match format_utc(t, DATE_FORMAT) {
        Some(s) => s,
        None => String::new(),
    }
}

} // verus!
