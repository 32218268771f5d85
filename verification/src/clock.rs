//! Clocks: a trait for the time source and a manually driven clock for tests.
use crate::event::current_time;
use crate::time::{Duration, Instant};
use vstd::prelude::*;

verus! {

/// A source of time for timing events.
pub trait Clock {
    /// What the clock reads in this state, for a clock whose reading is its
    /// own state; `None` for one that follows the system's time.
    spec fn fixed_reading(&self) -> Option<Instant>;

    fn now(&self) -> (t: Instant)
        ensures
            self.fixed_reading() matches Some(x) ==> t == x,
    ;

    fn advance(&mut self, duration: Duration);
}

/// The system's wall clock (time since the Unix epoch); it cannot be moved.
#[derive(Clone, Copy, Debug)]
pub struct SystemClock;

impl Clock for SystemClock {
    open spec fn fixed_reading(&self) -> Option<Instant> {
        None
    }

    /// The current time; nothing is stated of the reading.
    fn now(&self) -> Instant {
        current_time()
    }

    fn advance(&mut self, duration: Duration) {
    }
}

/// A clock that moves only when told to.
#[derive(Clone, Copy, Debug)]
pub struct FakeClock {
    time: Instant,
}

impl FakeClock {
    pub closed spec fn reading(self) -> Instant {
        self.time
    }

    pub fn new(start: Instant) -> (c: FakeClock)
        ensures
            c.reading() == start,
    {
        FakeClock { time: start }
    }

    /// A clock that reads the origin.
    pub fn at_zero() -> (c: FakeClock)
        ensures
            c.reading().nanos == 0,
    {
        FakeClock::new(Instant::from_nanos(0))
    }
}

impl Clock for FakeClock {
    open spec fn fixed_reading(&self) -> Option<Instant> {
        Some(self.reading())
    }

    fn now(&self) -> (t: Instant)
        ensures
            t == self.reading(),
    {
        self.time
    }

    /// Moves the reading forward, stopping at the largest representable time.
    fn advance(&mut self, duration: Duration)
        ensures
            final(self).reading().nanos == if old(self).reading().nanos + duration.nanos <= u64::MAX {
                old(self).reading().nanos + duration.nanos
            } else {
                u64::MAX as int
            },
    {
        self.time = match self.time.checked_add(duration) {
            Some(t) => t,
            None => Instant::from_nanos(u64::MAX),
        };
    }
}

} // verus!
