//! Spans and points of monotonic time, as plain nanosecond counts.
use vstd::prelude::*;

verus! {

/// Nanoseconds in one second.
pub const NANOS_PER_SECOND: u128 = 1_000_000_000;

/// Nanoseconds in one millisecond.
pub const NANOS_PER_MILLI: u128 = 1_000_000;

/// A span of time with nanosecond resolution.
#[derive(Debug, Clone, Copy, PartialEq, Eq, PartialOrd, Ord, Hash, Structural)]
pub struct Duration {
    /// Length of the span in nanoseconds.
    pub nanos: u128,
}

impl Duration {
    /// A span of `nanos` nanoseconds.
    #[must_use]
    pub fn from_nanos(nanos: u64) -> (span: Self)
        ensures
            span.nanos == nanos,
    {
        Duration { nanos: nanos as u128 }
    }

    /// A span of `micros` microseconds.
    #[must_use]
    pub fn from_micros(micros: u64) -> (span: Self)
        ensures
            span.nanos == micros * 1_000,
    {
        Duration { nanos: micros as u128 * 1_000 }
    }

    /// A span of `millis` milliseconds.
    #[must_use]
    pub fn from_millis(millis: u64) -> (span: Self)
        ensures
            span.nanos == millis * NANOS_PER_MILLI,
    {
        Duration { nanos: millis as u128 * 1_000_000 }
    }

    /// A span of `secs` seconds.
    #[must_use]
    pub fn from_secs(secs: u64) -> (span: Self)
        ensures
            span.nanos == secs * NANOS_PER_SECOND,
    {
        Duration { nanos: secs as u128 * 1_000_000_000 }
    }

    /// Whether the span is empty.
    #[must_use]
    pub fn is_zero(self) -> (zero: bool)
        ensures
            zero == (self.nanos == 0),
    {
        self.nanos == 0
    }

    /// What is left of this span after `part`, or `None` when `part` is longer.
    #[must_use]
    pub fn checked_sub(self, part: Duration) -> (rest: Option<Duration>)
        ensures
            rest is Some <==> part.nanos <= self.nanos,
            rest matches Some(span) ==> span.nanos == self.nanos - part.nanos,
    {
        if part.nanos <= self.nanos {
            Some(Duration { nanos: self.nanos - part.nanos })
        } else {
            None
        }
    }

    /// The longer of the two spans.
    #[must_use]
    pub fn longest(self, other: Duration) -> (span: Duration)
        ensures
            span.nanos == (if self.nanos < other.nanos { other.nanos } else { self.nanos }),
    {
        if self.nanos < other.nanos {
            other
        } else {
            self
        }
    }
}

/// A point on a monotonic clock, counted in nanoseconds from the clock's origin.
#[derive(Debug, Clone, Copy, PartialEq, Eq, PartialOrd, Ord, Hash, Structural)]
pub struct Instant {
    /// Nanoseconds since the clock's origin.
    pub nanos: u128,
}

impl Instant {
    /// The span from `earlier` to this point, or `None` when `earlier` lies after it.
    #[must_use]
    pub fn checked_duration_since(self, earlier: Instant) -> (span: Option<Duration>)
        ensures
            span is Some <==> earlier.nanos <= self.nanos,
            span matches Some(elapsed) ==> elapsed.nanos == self.nanos - earlier.nanos,
    {
        if earlier.nanos <= self.nanos {
            Some(Duration { nanos: self.nanos - earlier.nanos })
        } else {
            None
        }
    }

    /// The span from `earlier` to this point, empty when `earlier` lies after it.
    #[must_use]
    pub fn saturating_duration_since(self, earlier: Instant) -> (span: Duration)
        ensures
            span.nanos == (if earlier.nanos <= self.nanos {
                self.nanos - earlier.nanos
            } else {
                0
            }),
    {
        if earlier.nanos <= self.nanos {
            Duration { nanos: self.nanos - earlier.nanos }
        } else {
            Duration { nanos: 0 }
        }
    }
}

} // verus!
