//! Lengths of time in whole nanoseconds.

use vstd::prelude::*;

verus! {

/// A length of time.
#[derive(Clone, Copy, Debug, PartialEq, Eq, Structural)]
pub struct Duration {
    pub nanos: u128,
}

impl Duration {
    pub open spec fn of_secs(secs: u64) -> Duration {
        Duration { nanos: (secs * 1_000_000_000) as u128 }
    }

    pub open spec fn of_millis(millis: u64) -> Duration {
        Duration { nanos: (millis * 1_000_000) as u128 }
    }

    pub open spec fn of_micros(micros: u64) -> Duration {
        Duration { nanos: (micros * 1_000) as u128 }
    }

    pub fn from_secs(secs: u64) -> (r: Duration)
        ensures
            r == Duration::of_secs(secs),
            r.nanos == secs * 1_000_000_000,
    {
        Duration { nanos: secs as u128 * 1_000_000_000 }
    }

    pub fn from_millis(millis: u64) -> (r: Duration)
        ensures
            r == Duration::of_millis(millis),
            r.nanos == millis * 1_000_000,
    {
        Duration { nanos: millis as u128 * 1_000_000 }
    }

    pub fn from_micros(micros: u64) -> (r: Duration)
        ensures
            r == Duration::of_micros(micros),
            r.nanos == micros * 1_000,
    {
        Duration { nanos: micros as u128 * 1_000 }
    }

    pub fn from_nanos(nanos: u64) -> (r: Duration)
        ensures
            r.nanos == nanos,
    {
        Duration { nanos: nanos as u128 }
    }

    pub fn is_zero(&self) -> (r: bool)
        ensures
            r == (self.nanos == 0),
    {
        self.nanos == 0
    }

    /// Whole milliseconds, or the largest number when they do not fit.
    pub fn as_millis_capped(&self) -> (r: u64)
        ensures
            r == (if self.nanos / 1_000_000 > u64::MAX {
                u64::MAX as u128
            } else {
                self.nanos / 1_000_000
            }),
    {
        let millis: u128 = self.nanos / 1_000_000;
        if millis > u64::MAX as u128 {
            u64::MAX
        } else {
            millis as u64
        }
    }

    /// Nanoseconds, or the largest number when they do not fit.
    pub fn as_nanos_capped(&self) -> (r: u64)
        ensures
            r == (if self.nanos > u64::MAX {
                u64::MAX as u128
            } else {
                self.nanos
            }),
    {
        if self.nanos > u64::MAX as u128 {
            u64::MAX
        } else {
            self.nanos as u64
        }
    }
}

} // verus!
