//! Instants in UTC, held as seconds since the Unix epoch and the nanoseconds
//! within that second.
use vstd::prelude::*;

verus! {

/// An instant in UTC: whole seconds since 1970-01-01T00:00:00Z and the
/// nanoseconds past that second.
#[derive(Clone, Copy, Debug, PartialEq, Eq, Structural)]
pub struct Timestamp {
    pub secs: i64,
    pub nanos: u32,
}

/// Seconds in one day.
pub const SECONDS_PER_DAY: i64 = 86400;

/// The instant that chrono reads from an RFC 3339 text, as seconds and
/// nanoseconds, or `None` where chrono refuses the text.
pub uninterp spec fn rfc3339_instant(s: Seq<char>) -> Option<(i64, u32)>;

/// Relies on chrono's `FromStr` for `DateTime<Utc>` (a relaxed RFC 3339,
/// any offset converted to UTC), then on `timestamp` and
/// `timestamp_subsec_nanos`: the result depends on the text alone.
#[verifier::external_body]
fn parse_utc(s: &str) -> (r: Option<(i64, u32)>)
    ensures
        r == rfc3339_instant(s@),
{
    match s.parse::<chrono::DateTime<chrono::Utc>>() {
        Ok(d) => Some((d.timestamp(), d.timestamp_subsec_nanos())),
        Err(_) => None,
    }
}

/// The timestamp that a pair of seconds and nanoseconds stands for.
pub open spec fn from_parts(p: Option<(i64, u32)>) -> Option<Timestamp> {
    match p {
        Some((secs, nanos)) => Some(Timestamp { secs, nanos }),
        None => None,
    }
}

impl Timestamp {
    /// Reads an RFC 3339 date and time, such as `2025-11-20T23:59:59Z`.
    pub fn parse(s: &str) -> (r: Option<Timestamp>)
        ensures
            r == from_parts(rfc3339_instant(s@)),
    {
        match parse_utc(s) {
            Some((secs, nanos)) => Some(Timestamp { secs, nanos }),
            None => None,
        }
    }

    /// The same instant `days` whole days later, or `None` where the
    /// seconds would not fit in an `i64`.
    pub fn plus_days(self, days: u32) -> (r: Option<Timestamp>)
        ensures
            self.secs + days * SECONDS_PER_DAY <= i64::MAX ==> r == Some(
                Timestamp { secs: (self.secs + days * SECONDS_PER_DAY) as i64, nanos: self.nanos },
            ),
            self.secs + days * SECONDS_PER_DAY > i64::MAX ==> r is None,
    {
        let delta: i64 = days as i64 * SECONDS_PER_DAY;
        match self.secs.checked_add(delta) {
            Some(secs) => Some(Timestamp { secs, nanos: self.nanos }),
            None => None,
        }
    }
}

} // verus!
