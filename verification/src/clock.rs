//! Readings of the monotonic clock.
use vstd::prelude::*;

verus! {

/// A reading of the monotonic clock, in nanoseconds since the service started.
#[derive(Clone, Copy, Debug, PartialEq, Eq, Structural)]
pub struct Instant {
    pub nanos: u64,
}

impl Instant {
    /// Nanoseconds from this reading to `now`; zero if `now` is the earlier one.
    pub open spec fn nanos_until(self, now: Instant) -> int {
        if now.nanos >= self.nanos {
            now.nanos - self.nanos
        } else {
            0
        }
    }

    /// Whole seconds from this reading to `now`.
    pub open spec fn secs_until(self, now: Instant) -> int {
        self.nanos_until(now) / 1_000_000_000
    }

    /// Nanoseconds that have passed from this reading to `now`.
    pub fn elapsed_nanos(&self, now: Instant) -> (r: u64)
        ensures
            r == self.nanos_until(now),
    {
        if now.nanos >= self.nanos {
            now.nanos - self.nanos
        } else {
            0
        }
    }

    /// Whole seconds that have passed from this reading to `now`.
    pub fn elapsed_secs(&self, now: Instant) -> (r: u64)
        ensures
            r == self.secs_until(now),
    {
        self.elapsed_nanos(now) / 1_000_000_000
    }
}

/// Time adds up: from one reading to a later one passes what lies between them on the
/// clock, by way of any reading in between, and nothing passes backwards.
pub proof fn law_time_adds_up(a: Instant, b: Instant, c: Instant)
    requires
        a.nanos <= b.nanos <= c.nanos,
    ensures
        a.nanos + a.nanos_until(c) == c.nanos,
        a.nanos_until(b) + b.nanos_until(c) == a.nanos_until(c),
        c.nanos_until(a) == 0,
{
}

/// Seconds are whole ones: so many have passed, and the next one has not.
pub proof fn law_whole_seconds(a: Instant, b: Instant)
    requires
        a.nanos <= b.nanos,
    ensures
        a.nanos + a.secs_until(b) * 1_000_000_000 <= b.nanos,
        b.nanos < a.nanos + (a.secs_until(b) + 1) * 1_000_000_000,
        b.secs_until(a) == 0,
{
}

} // verus!
