//! Time points and spans, counted in nanoseconds.
use vstd::prelude::*;

verus! {

/// A point in time, `nanos` nanoseconds after its clock's origin.
#[derive(Clone, Copy, Debug, PartialEq, Eq, Structural)]
pub struct Instant {
    pub nanos: u64,
}

/// `x`, or the largest `u64` when `x` is larger.
pub open spec fn saturated(x: int) -> int {
    if x <= u64::MAX {
        x
    } else {
        u64::MAX as int
    }
}

/// A span of time in nanoseconds.
#[derive(Clone, Copy, Debug, PartialEq, Eq, Structural)]
pub struct Duration {
    pub nanos: u64,
}

impl Duration {
    pub fn from_nanos(nanos: u64) -> (d: Duration)
        ensures
            d.nanos == nanos,
    {
        Duration { nanos }
    }

    /// The span of `micros`, or the longest span when it does not fit.
    pub fn from_micros(micros: u64) -> (d: Duration)
        ensures
            d.nanos == saturated(micros * 1000),
    {
        match micros.checked_mul(1000) {
            Some(nanos) => Duration { nanos },
            None => Duration { nanos: u64::MAX },
        }
    }

    /// The span of `millis`, or the longest span when it does not fit.
    pub fn from_millis(millis: u64) -> (d: Duration)
        ensures
            d.nanos == saturated(millis * 1_000_000),
    {
        match millis.checked_mul(1_000_000) {
            Some(nanos) => Duration { nanos },
            None => Duration { nanos: u64::MAX },
        }
    }

    /// The span of `secs`, or the longest span when it does not fit.
    pub fn from_secs(secs: u64) -> (d: Duration)
        ensures
            d.nanos == saturated(secs * 1_000_000_000),
    {
        match secs.checked_mul(1_000_000_000) {
            Some(nanos) => Duration { nanos },
            None => Duration { nanos: u64::MAX },
        }
    }

    /// Whole milliseconds in this span.
    pub fn as_millis(&self) -> (m: u64)
        ensures
            m == self.nanos / 1_000_000,
    {
        self.nanos / 1_000_000
    }

    pub fn is_zero(&self) -> (b: bool)
        ensures
            b == (self.nanos == 0),
    {
        self.nanos == 0
    }
}

impl Instant {
    pub fn from_nanos(nanos: u64) -> (t: Instant)
        ensures
            t.nanos == nanos,
    {
        Instant { nanos }
    }

    /// The span from `earlier` to `self`, or `None` when `earlier` is later.
    pub fn checked_duration_since(&self, earlier: Instant) -> (r: Option<Duration>)
        ensures
            match r {
                Some(d) => earlier.nanos <= self.nanos && d.nanos == self.nanos - earlier.nanos,
                None => self.nanos < earlier.nanos,
            },
    {
        if earlier.nanos <= self.nanos {
            Some(Duration { nanos: self.nanos - earlier.nanos })
        } else {
            None
        }
    }

    /// The span from `earlier` to `self`, zero when `earlier` is later.
    pub fn saturating_duration_since(&self, earlier: Instant) -> (d: Duration)
        ensures
            d.nanos == if earlier.nanos <= self.nanos { self.nanos - earlier.nanos } else { 0 },
    {
        if earlier.nanos <= self.nanos {
            Duration { nanos: self.nanos - earlier.nanos }
        } else {
            Duration { nanos: 0 }
        }
    }

    /// `self + d`, or `None` when the sum leaves the representable range.
    pub fn checked_add(&self, d: Duration) -> (r: Option<Instant>)
        ensures
            match r {
                Some(t) => t.nanos == self.nanos + d.nanos,
                None => self.nanos + d.nanos > u64::MAX,
            },
    {
        if d.nanos <= u64::MAX - self.nanos {
            Some(Instant { nanos: self.nanos + d.nanos })
        } else {
            None
        }
    }

    /// `self - d`, or `None` when the difference would precede the origin.
    pub fn checked_sub(&self, d: Duration) -> (r: Option<Instant>)
        ensures
            match r {
                Some(t) => t.nanos == self.nanos - d.nanos,
                None => self.nanos < d.nanos,
            },
    {
        if d.nanos <= self.nanos {
            Some(Instant { nanos: self.nanos - d.nanos })
        } else {
            None
        }
    }
}

} // verus!
