//! Simulation time: countdowns measured in nanoseconds.

use vstd::prelude::*;

verus! {

/// Nanoseconds in one simulated second.
pub const SECOND: u64 = 1_000_000_000;

/// Nanoseconds in one simulated millisecond.
pub const MILLISECOND: u64 = 1_000_000;

/// A one-shot countdown: the time that is left until it reaches zero.
///
/// A countdown only ever moves towards zero; it is set to a new value by
/// replacing it.
#[derive(Clone, Copy, Debug, PartialEq, Eq, Structural)]
pub struct Countdown {
    pub remaining: u64,
}

/// What is left of `remaining` after `delta` has passed, never below zero.
pub open spec fn aged(remaining: u64, delta: u64) -> u64 {
    if remaining >= delta {
        (remaining - delta) as u64
    } else {
        0
    }
}

impl Countdown {
    /// A countdown with `duration` nanoseconds to go.
    pub fn new(duration: u64) -> (countdown: Countdown)
        ensures
            countdown.remaining == duration,
    {
        Countdown { remaining: duration }
    }

    /// Lets `delta` nanoseconds pass, stopping at zero.
    pub fn tick(&mut self, delta: u64)
        ensures
            final(self).remaining == aged(old(self).remaining, delta),
    {
        self.remaining = self.remaining.saturating_sub(delta);
    }

    /// Whether the countdown has reached zero.
    pub fn finished(&self) -> (done: bool)
        ensures
            done == (self.remaining == 0),
    {
        self.remaining == 0
    }

    /// The time that is left, in nanoseconds.
    pub fn remaining(&self) -> (left: u64)
        ensures
            left == self.remaining,
    {
        self.remaining
    }
}

} // verus!
