//! Plain-integer time values: spans, monotonic instants and wall-clock times.
//!
//! The clocks themselves are read by the caller; everything here is arithmetic
//! on the numbers that came back.

use vstd::prelude::*;

verus! {

/// Nanoseconds in one second.
pub const NANOS_PER_SEC: u128 = 1_000_000_000;

/// Nanoseconds in one millisecond.
pub const NANOS_PER_MILLI: u128 = 1_000_000;

/// A non-negative length of time, counted in nanoseconds.
#[derive(Clone, Copy, Debug, PartialEq, Eq, Structural, PartialOrd, Ord, Hash)]
pub struct TimeSpan {
    pub nanos: u128,
}

/// A reading of the monotonic clock: nanoseconds since an origin that is fixed
/// for the life of the process.
#[derive(Clone, Copy, Debug, PartialEq, Eq, Structural, PartialOrd, Ord, Hash)]
pub struct MonotonicTime {
    pub nanos: u128,
}

/// A reading of the wall clock: nanoseconds since the UNIX epoch, negative for
/// times before it.
#[derive(Clone, Copy, Debug, PartialEq, Eq, Structural, PartialOrd, Ord, Hash)]
pub struct WallTime {
    pub nanos: i128,
}

/// The larger of two integers.
pub open spec fn spec_max(a: int, b: int) -> int {
    if a >= b {
        a
    } else {
        b
    }
}

/// The smaller of two integers.
pub open spec fn spec_min(a: int, b: int) -> int {
    if a <= b {
        a
    } else {
        b
    }
}

impl TimeSpan {
    /// The empty span.
    pub fn zero() -> (span: TimeSpan)
        ensures
            span.nanos == 0,
    {
        TimeSpan { nanos: 0 }
    }

    /// The span of `nanos` nanoseconds.
    pub fn from_nanos(nanos: u128) -> (span: TimeSpan)
        ensures
            span.nanos == nanos,
    {
        TimeSpan { nanos }
    }

    /// The span of `millis` milliseconds.
    pub fn from_millis(millis: u64) -> (span: TimeSpan)
        ensures
            span.nanos == millis * NANOS_PER_MILLI,
    {
        assert(millis * NANOS_PER_MILLI <= u128::MAX) by (nonlinear_arith)
            requires
                millis <= u64::MAX,
                NANOS_PER_MILLI == 1_000_000,
        ;
        let wide: u128 = millis.into();
        TimeSpan { nanos: wide * NANOS_PER_MILLI }
    }

    /// The span of `secs` whole seconds.
    pub fn from_secs(secs: u64) -> (span: TimeSpan)
        ensures
            span.nanos == secs * NANOS_PER_SEC,
    {
        assert(secs * NANOS_PER_SEC <= u128::MAX) by (nonlinear_arith)
            requires
                secs <= u64::MAX,
                NANOS_PER_SEC == 1_000_000_000,
        ;
        let wide: u128 = secs.into();
        TimeSpan { nanos: wide * NANOS_PER_SEC }
    }

    /// The span in nanoseconds.
    pub fn as_nanos(&self) -> (nanos: u128)
        ensures
            nanos == self.nanos,
    {
        self.nanos
    }

    /// The number of whole milliseconds in the span, rounded down.
    pub fn as_millis(&self) -> (millis: u128)
        ensures
            millis == self.nanos / NANOS_PER_MILLI,
    {
        self.nanos / NANOS_PER_MILLI
    }

    /// The number of whole seconds in the span, rounded down.
    pub fn as_secs(&self) -> (secs: u128)
        ensures
            secs == self.nanos / NANOS_PER_SEC,
    {
        self.nanos / NANOS_PER_SEC
    }

    /// The span cut down to whole seconds.
    pub fn truncate_to_secs(&self) -> (span: TimeSpan)
        ensures
            span.nanos == (self.nanos / NANOS_PER_SEC) * NANOS_PER_SEC,
            span.nanos <= self.nanos,
            self.nanos - span.nanos < NANOS_PER_SEC,
    {
        let secs: u128 = self.nanos / NANOS_PER_SEC;
        assert(secs * NANOS_PER_SEC <= self.nanos && self.nanos - secs * NANOS_PER_SEC
            < NANOS_PER_SEC) by (nonlinear_arith)
            requires
                secs == self.nanos / NANOS_PER_SEC,
                NANOS_PER_SEC == 1_000_000_000,
        ;
        TimeSpan { nanos: secs * NANOS_PER_SEC }
    }

    /// The longer of two spans.
    pub fn max(self, other: TimeSpan) -> (span: TimeSpan)
        ensures
            span.nanos == spec_max(self.nanos as int, other.nanos as int),
    {
        if self.nanos >= other.nanos {
            self
        } else {
            other
        }
    }

    /// The shorter of two spans.
    pub fn min(self, other: TimeSpan) -> (span: TimeSpan)
        ensures
            span.nanos == spec_min(self.nanos as int, other.nanos as int),
    {
        if self.nanos <= other.nanos {
            self
        } else {
            other
        }
    }
}

impl MonotonicTime {
    /// The reading `nanos` nanoseconds after the origin.
    pub fn from_nanos(nanos: u128) -> (time: MonotonicTime)
        ensures
            time.nanos == nanos,
    {
        MonotonicTime { nanos }
    }

    /// Time elapsed from `earlier` to `self`: zero where `earlier` is in fact
    /// the later of the two.
    pub open spec fn spec_since(self, earlier: MonotonicTime) -> int {
        spec_max(self.nanos - earlier.nanos, 0)
    }

    /// Time elapsed from `earlier` to `self`, zero where `earlier` is the later.
    pub fn saturating_since(&self, earlier: MonotonicTime) -> (span: TimeSpan)
        ensures
            span.nanos == self.spec_since(earlier),
    {
        if self.nanos >= earlier.nanos {
            TimeSpan { nanos: self.nanos - earlier.nanos }
        } else {
            TimeSpan { nanos: 0 }
        }
    }
}

impl WallTime {
    /// The reading `nanos` nanoseconds after the UNIX epoch.
    pub fn from_nanos(nanos: i128) -> (time: WallTime)
        ensures
            time.nanos == nanos,
    {
        WallTime { nanos }
    }

    /// The reading `secs` whole seconds after the UNIX epoch.
    pub fn from_secs(secs: u64) -> (time: WallTime)
        ensures
            time.nanos == secs * NANOS_PER_SEC,
    {
        assert(secs * 1_000_000_000 <= i128::MAX) by (nonlinear_arith)
            requires
                secs <= u64::MAX,
        ;
        let wide: i128 = secs as i128;
        WallTime { nanos: wide * 1_000_000_000i128 }
    }
}

} // verus!
