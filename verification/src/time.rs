//! Durations in whole seconds and the wall clock.

use std::time::Duration;
use vstd::prelude::*;

verus! {

/// The duration of that many milliseconds.
pub uninterp spec fn duration_of_millis(millis: u64) -> Duration;

/// The duration of that many seconds.
pub open spec fn duration_of_secs(secs: u64) -> Duration
    recommends
        secs <= u64::MAX / 1000,
{
    duration_of_millis((secs * 1000) as u64)
}

/// Calls `Duration::from_millis`. The duration depends on the count alone.
#[verifier::external_body]
pub(crate) fn millis(count: u64) -> (r: Duration)
    ensures
        r == duration_of_millis(count),
{
    Duration::from_millis(count)
}

/// The duration of that many seconds.
pub(crate) fn secs(count: u64) -> (r: Duration)
    requires
        count <= u64::MAX / 1000,
    ensures
        r == duration_of_secs(count),
{
    millis(count * 1000)
}

/// Calls `==` on durations: they are equal when they are the same span of time.
#[verifier::external_body]
pub(crate) fn same_duration(a: &Duration, b: &Duration) -> (r: bool)
    ensures
        r == (*a == *b),
{
    a == b
}

/// A reading of the wall clock. There is no other way to come by one than to read the clock, so that
/// a contract that speaks of a reading speaks of what the clock gave.
#[derive(Debug)]
pub struct ClockReading {
    outcome: Result<u64, String>,
}

impl ClockReading {
    /// What the clock gave: whole seconds since the Unix epoch, or why there are none.
    pub closed spec fn gave(self) -> Result<u64, String> {
        self.outcome
    }

    /// The seconds that the clock gave, or zero where it stands before the Unix epoch.
    pub open spec fn seconds_or_zero(self) -> u64 {
        match self.gave() {
            Ok(now) => now,
            Err(_) => 0,
        }
    }

    /// What the clock gave.
    pub fn outcome(self) -> (r: Result<u64, String>)
        ensures
            r == self.gave(),
    {
        self.outcome
    }
}

/// The time of a reading is the very number of seconds that the clock gave.
pub proof fn reading_is_in_seconds(reading: ClockReading)
    ensures
        forall|now: u64| reading.gave() == Ok::<u64, String>(now) ==> reading.seconds_or_zero() == now,
        reading.gave() is Err ==> reading.seconds_or_zero() == 0,
{
}

/// Calls `SystemTime::elapsed` on the Unix epoch: whole seconds since then, or the error's text
/// where the clock stands before it. Nothing is promised of the reading.
#[verifier::external_body]
pub(crate) fn seconds_since_epoch() -> (r: ClockReading) {
    let elapsed = std::time::SystemTime::UNIX_EPOCH.elapsed();
    ClockReading { outcome: elapsed.map(|d| d.as_secs()).map_err(|e| e.to_string()) }
}

} // verus!
