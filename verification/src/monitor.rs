//! A windowed mean: the average of every 120 readings in turn.
use vstd::prelude::*;

verus! {

/// The number of readings that one mean is taken over.
pub const WINDOW: usize = 120;

/// Gathers readings and shows the mean of the last full window.
#[derive(Debug)]
pub struct Monitor {
    /// The mean of the last full window, rounded down; zero before the first
    /// window is full.
    pub display_val: u64,
    acc: u64,
    step: usize,
}

/// The sum of two readings, or the largest `u64` if the sum exceeds it.
pub open spec fn capped_sum(a: int, b: int) -> int {
    if a + b > u64::MAX {
        u64::MAX as int
    } else {
        a + b
    }
}

impl Monitor {
    /// The value of `display_val`.
    pub closed spec fn shown(&self) -> int {
        self.display_val as int
    }

    /// The sum of the readings of the window that is being filled.
    pub closed spec fn gathered(&self) -> int {
        self.acc as int
    }

    /// The number of readings in the window that is being filled.
    pub closed spec fn count(&self) -> int {
        self.step as int
    }

    /// Whether `self` is what `before` becomes by taking the reading `val`.
    /// The reading that fills the window sets the mean of the window and
    /// starts the next one.
    pub open spec fn follows(&self, before: Monitor, val: u64) -> bool {
        if before.count() + 1 < WINDOW {
            &&& self.count() == before.count() + 1
            &&& self.gathered() == capped_sum(before.gathered(), val as int)
            &&& self.shown() == before.shown()
        } else {
            &&& self.count() == 0
            &&& self.gathered() == 0
            &&& self.shown() == capped_sum(before.gathered(), val as int) / (WINDOW as int)
        }
    }

    /// A monitor that has taken no reading.
    pub fn new() -> (m: Self)
        ensures
            m.shown() == 0,
            m.gathered() == 0,
            m.count() == 0,
    {
        Monitor { display_val: 0, acc: 0, step: 0 }
    }

    /// The mean of the last full window.
    pub fn mean(&self) -> (m: u64)
        ensures
            m == self.shown(),
    {
        self.display_val
    }

    /// Takes one reading. The reading that fills the window sets
    /// `display_val` to the mean of the window and starts the next one.
    pub fn inc(&mut self, val: u64)
        ensures
            final(self).follows(*old(self), val),
    {
        self.acc = if self.acc > u64::MAX - val {
            u64::MAX
        } else {
            self.acc + val
        };
        if self.step >= WINDOW - 1 {
            self.step = 0;
            self.display_val = self.acc / (WINDOW as u64);
            self.acc = 0;
        } else {
            self.step += 1;
        }
    }
}

} // verus!
