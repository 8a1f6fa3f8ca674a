//! Points in time and spans of time, counted in nanoseconds.

use vstd::prelude::*;

verus! {

pub const NANOS_PER_MILLI: u64 = 1_000_000;

pub const NANOS_PER_SEC: u64 = 1_000_000_000;

/// A span of time.
#[derive(Debug, Clone, Copy, PartialEq, Eq, Structural)]
pub struct Duration {
    pub nanos: u64,
}

/// A point on a clock that never runs backwards.
#[derive(Debug, Clone, Copy, PartialEq, Eq, Structural)]
pub struct Instant {
    pub nanos: u64,
}

impl Duration {
    pub fn zero() -> (span: Duration)
        ensures
            span.nanos == 0,
    {
        Duration { nanos: 0 }
    }

    pub fn from_millis(millis: u64) -> (span: Duration)
        requires
            millis * NANOS_PER_MILLI <= u64::MAX,
        ensures
            span.nanos == millis * NANOS_PER_MILLI,
    {
        Duration { nanos: millis * NANOS_PER_MILLI }
    }

    pub fn from_secs(secs: u64) -> (span: Duration)
        requires
            secs * NANOS_PER_SEC <= u64::MAX,
        ensures
            span.nanos == secs * NANOS_PER_SEC,
    {
        Duration { nanos: secs * NANOS_PER_SEC }
    }

    /// Whole milliseconds; what is left over is dropped.
    pub fn as_millis(self) -> (millis: u64)
        ensures
            millis == self.nanos / NANOS_PER_MILLI,
    {
        self.nanos / NANOS_PER_MILLI
    }
}

impl Instant {
    /// Time from `earlier` to `self`, zero where `earlier` is the later one.
    pub open spec fn since(self, earlier: Instant) -> int {
        if self.nanos >= earlier.nanos {
            self.nanos - earlier.nanos
        } else {
            0
        }
    }

    pub fn saturating_duration_since(self, earlier: Instant) -> (span: Duration)
        ensures
            span.nanos == self.since(earlier),
    {
        Duration { nanos: self.nanos.saturating_sub(earlier.nanos) }
    }

    /// The point `span` after `self`.
    pub fn plus(self, span: Duration) -> (later: Instant)
        requires
            self.nanos + span.nanos <= u64::MAX,
        ensures
            later.nanos == self.nanos + span.nanos,
    {
        Instant { nanos: self.nanos + span.nanos }
    }
}

} // verus!
