//! The time source: blocking sleeps and a timer that can be reset.
use vstd::prelude::*;

verus! {

/// What the wait needs from a clock. The unit of `sleep` and `elapsed` is the
/// implementation's own (seconds for a real clock, milliseconds in tests).
pub trait Sleeper {
    /// Blocks for `duration` units.
    fn sleep(&self, duration: u64);

    /// Sets the timer's reference instant to now.
    fn reset(&mut self);

    /// Whether at least `units` units have passed since the last reset (or
    /// since construction, where there was none).
    fn elapsed(&self, units: u64) -> bool;
}

/// A time source that never waits and for which every interval has already
/// passed: a retry loop driven by it gives up at its first failed attempt.
pub struct NoOpsSleeper {}

impl Sleeper for NoOpsSleeper {
    fn sleep(&self, _duration: u64) {
    }

    fn reset(&mut self)
        ensures
            *final(self) == *old(self),
    {
    }

    fn elapsed(&self, _units: u64) -> (r: bool)
        ensures
            r,
    {
        true
    }
}

/// The time source that does not wait.
pub fn new_no_ops() -> (s: NoOpsSleeper)
    ensures
        s == (NoOpsSleeper {}),
{
    NoOpsSleeper {}
}

} // verus!
