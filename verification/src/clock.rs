//! Points in time, and when a message arrived.

use vstd::prelude::*;

verus! {

/// A point in time: the seconds since the start of 1970 in UTC, and the nanoseconds since the
/// last full second. In a leap second the nanoseconds exceed a second.
#[derive(Clone, Copy, Debug, PartialEq, Eq, Structural)]
pub struct Timestamp {
    pub seconds: i64,
    pub nanos: u32,
}

/// The point in time, as seconds and nanoseconds, that an RFC 3339 text names; `None` for any
/// other text.
pub uninterp spec fn rfc3339_instant(text: Seq<char>) -> Option<(i64, u32)>;

/// `chrono::DateTime::parse_from_rfc3339`: the point in time that `text` names in RFC 3339, given
/// by its seconds and nanoseconds in UTC. Only that it depends on `text` alone is claimed; which
/// texts are accepted is left to the parser.
#[verifier::external_body]
fn parse_rfc3339(text: &str) -> (instant: Option<(i64, u32)>)
    ensures
        instant == rfc3339_instant(text@),
{
    match chrono::DateTime::parse_from_rfc3339(text) {
        Ok(time) => Some((time.timestamp(), time.timestamp_subsec_nanos())),
        Err(_) => None,
    }
}

/// `chrono::Utc::now`: the time on the system's clock, by its seconds and nanoseconds. Nothing is
/// claimed of it. A system clock set before 1970 makes the call panic.
#[verifier::external_body]
fn clock_reading() -> (instant: (i64, u32)) {
    let now = chrono::Utc::now();
    (now.timestamp(), now.timestamp_subsec_nanos())
}

/// The present time.
pub(crate) fn current_time() -> (now: Timestamp) {
    let (seconds, nanos) = clock_reading();
    Timestamp { seconds, nanos }
}

/// The time at which a message arrived, if it is `now`, given the point in time that its declared
/// time names: that point, else the present.
pub open spec fn arrival_from(parsed: Option<(i64, u32)>, now: Timestamp) -> Timestamp {
    match parsed {
        Some(instant) => Timestamp { seconds: instant.0, nanos: instant.1 },
        None => now,
    }
}

/// The time at which a message arrived that declares `declared`, if it is `now`: the time that it
/// declares if that is in RFC 3339, else the present.
pub open spec fn arrival(declared: Option<Seq<char>>, now: Timestamp) -> Timestamp {
    match declared {
        Some(text) => arrival_from(rfc3339_instant(text), now),
        None => now,
    }
}

/// The time at which a message arrived, if it is `now`, given the point in time that its declared
/// time names.
pub fn arrival_of(parsed: Option<(i64, u32)>, now: Timestamp) -> (time: Timestamp)
    ensures
        time == arrival_from(parsed, now),
{
    match parsed {
        Some((seconds, nanos)) => Timestamp { seconds, nanos },
        None => now,
    }
}

/// The time at which a message arrived, if it is `now`.
pub fn arrival_time_at(declared: &Option<String>, now: Timestamp) -> (time: Timestamp)
    ensures
        time == arrival(declared.deep_view(), now),
{
    let parsed = match declared {
        Some(text) => parse_rfc3339(text.as_str()),
        None => None,
    };
    arrival_of(parsed, now)
}

} // verus!
