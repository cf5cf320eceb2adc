//! Points in time, and the calls that read the clock or print a time.

use vstd::prelude::*;

verus! {

/// A point in time: whole seconds since 1970-01-01T00:00:00Z and the
/// nanoseconds past that second.
#[derive(Clone, Copy, Debug, PartialEq, Eq, Structural)]
pub struct Timestamp {
    pub secs: i64,
    pub nanos: u32,
}

/// The RFC 3339 text that `chrono` prints for a point in time, where
/// `chrono` can represent it.
pub uninterp spec fn rfc3339_of(secs: i64, nanos: u32) -> Option<Seq<char>>;

/// Reads the clock with `chrono::Utc::now`. Nothing is promised of the
/// time that comes back. `chrono` aborts where the system clock stands
/// before 1970.
#[verifier::external_body]
pub(crate) fn current_time() -> Timestamp {
    let now = chrono::Utc::now();
    Timestamp { secs: now.timestamp(), nanos: now.timestamp_subsec_nanos() }
}

/// Prints a point in time with `chrono::DateTime::to_rfc3339`, after
/// `chrono::DateTime::from_timestamp` has accepted it. Trusted: the
/// answer is a function of the two numbers alone, named `rfc3339_of`.
#[verifier::external_body]
pub(crate) fn format_rfc3339(at: Timestamp) -> (r: Option<String>)
    ensures
        r.deep_view() == rfc3339_of(at.secs, at.nanos),
{
    match chrono::DateTime::from_timestamp(at.secs, at.nanos) {
        Some(time) => Some(time.to_rfc3339()),
        None => None,
    }
}

/// The local time as `chrono` prints it under `%Y%m%d_%H%M%S`, read with
/// `chrono::Local::now`. Which text comes back depends on the clock and
/// on the time zone of the machine. Trusted: it has at least fifteen
/// characters, for `chrono` writes a year with four characters or more,
/// and the month, the day, the hour, the minute and the second with two
/// digits each.
#[verifier::external_body]
pub(crate) fn local_stamp() -> (r: String)
    ensures
        r@.len() >= 15,
{
    chrono::Local::now().format("%Y%m%d_%H%M%S").to_string()
}

/// The local time as RFC 3339 text, read with `chrono::Local::now` and
/// printed with `chrono::DateTime::to_rfc3339`. Nothing is promised of
/// the text: it depends on the clock and on the time zone of the machine.
#[verifier::external_body]
pub(crate) fn local_rfc3339() -> String {
    chrono::Local::now().to_rfc3339()
}

} // verus!
