use vstd::prelude::*;

verus! {

/// A point in time in UTC: whole seconds since the Unix epoch, and nanoseconds past
/// that second (above 999,999,999 only within a leap second, which the clock never
/// gives).
#[derive(Debug, Clone, Copy, PartialEq, Eq, Hash, PartialOrd, Ord, Structural)]
pub struct UtcTime {
    pub secs: i64,
    pub nanos: u32,
}

/// Calls `chrono::Utc::now`, which reads the system clock, and takes the result apart
/// with `timestamp` and `timestamp_subsec_nanos`. The time depends on when it is
/// called. `Utc::now` builds it from the time elapsed since the Unix epoch (it panics
/// on a clock set before it), so the seconds are not negative, and the nanoseconds are
/// those of that duration, below one billion.
#[verifier::external_body]
pub(crate) fn now_utc() -> (t: UtcTime)
    ensures
        t.secs >= 0,
        t.nanos < 1_000_000_000,
{
    let now = chrono::Utc::now();
    UtcTime { secs: now.timestamp(), nanos: now.timestamp_subsec_nanos() }
}

} // verus!
