//! Spans of time and offsets from the start of a build.

use vstd::prelude::*;

verus! {

/// Nanoseconds in one millisecond.
pub const NANOS_PER_MILLI: u64 = 1_000_000;

/// A span of time, or an offset from the start of a build.
///
/// The value is held as a whole number of nanoseconds, so that spans far
/// below one millisecond stay exact; it reads as milliseconds through
/// [`Milliseconds::whole_millis`] and [`Milliseconds::subsec_nanos`].
#[derive(Clone, Copy, Debug, PartialEq, Eq, Structural)]
pub struct Milliseconds {
    nanos: u64,
}

/// The sum of two spans, held at the largest span that can be represented.
pub open spec fn saturating_sum(a: int, b: int) -> int {
    if a + b > u64::MAX as int {
        u64::MAX as int
    } else {
        a + b
    }
}

impl Milliseconds {
    /// The span in nanoseconds.
    pub closed spec fn nanos(self) -> u64 {
        self.nanos
    }

    /// The empty span.
    pub fn zero() -> (r: Self)
        ensures
            r.nanos() == 0,
    {
        Milliseconds { nanos: 0 }
    }

    /// A span of `nanos` nanoseconds.
    pub fn from_nanos(nanos: u64) -> (r: Self)
        ensures
            r.nanos() == nanos,
    {
        Milliseconds { nanos }
    }

    /// A span of `millis` milliseconds, held at the largest span where it
    /// cannot be represented.
    pub fn from_millis(millis: u64) -> (r: Self)
        ensures
            r.nanos() == if millis * NANOS_PER_MILLI > u64::MAX {
                u64::MAX as int
            } else {
                millis * NANOS_PER_MILLI
            },
    {
        if millis > u64::MAX / NANOS_PER_MILLI {
            assert(millis * NANOS_PER_MILLI > u64::MAX) by (nonlinear_arith)
                requires
                    millis > u64::MAX / NANOS_PER_MILLI,
                    NANOS_PER_MILLI == 1_000_000,
            ;
            Milliseconds { nanos: u64::MAX }
        } else {
            assert(millis * NANOS_PER_MILLI <= u64::MAX) by (nonlinear_arith)
                requires
                    millis <= u64::MAX / NANOS_PER_MILLI,
                    NANOS_PER_MILLI == 1_000_000,
            ;
            Milliseconds { nanos: millis * NANOS_PER_MILLI }
        }
    }

    /// The sum of two spans, held at the largest span where it cannot be
    /// represented.
    pub fn add(self, other: Self) -> (r: Self)
        ensures
            r.nanos() == saturating_sum(self.nanos() as int, other.nanos() as int),
    {
        Milliseconds { nanos: self.nanos.saturating_add(other.nanos) }
    }

    /// The whole milliseconds of the span.
    pub fn whole_millis(self) -> (n: u64)
        ensures
            n == self.nanos() / NANOS_PER_MILLI,
    {
        self.nanos / NANOS_PER_MILLI
    }

    /// The nanoseconds of the span beyond its whole milliseconds.
    pub fn subsec_nanos(self) -> (n: u64)
        ensures
            n == self.nanos() % NANOS_PER_MILLI,
    {
        self.nanos % NANOS_PER_MILLI
    }

    /// The span in nanoseconds.
    pub fn as_nanos(self) -> (n: u64)
        ensures
            n == self.nanos(),
    {
        self.nanos
    }
}

} // verus!
