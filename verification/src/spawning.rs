//! The timer that paces enemy spawns and quickens as the episode goes on.

use crate::timing::{MILLISECOND, SECOND};
use vstd::prelude::*;

verus! {

/// The shortest interval between two spawns.
pub const SHORTEST_INTERVAL: u64 = MILLISECOND;

/// A repeating timer whose interval shrinks while time passes.
///
/// `duration` is the interval, `elapsed` the time since the interval last
/// came round, `times_finished` how often it came round in the last update,
/// and `interval_decrease` the time by which the interval shrinks in every
/// second that passes. All times are nanoseconds.
#[derive(Clone, Copy, Debug, PartialEq, Eq, Structural)]
pub struct SpawnTimer {
    pub duration: u64,
    pub elapsed: u64,
    pub times_finished: u32,
    pub interval_decrease: u64,
}

/// The interval `duration` after `delta` nanoseconds in which it shrinks by
/// `interval_decrease` a second: never shorter than the shortest interval.
pub open spec fn shrunk(duration: u64, interval_decrease: u64, delta: u64) -> u64 {
    let decrease = interval_decrease * delta / (SECOND as int);
    if duration - decrease < SHORTEST_INTERVAL {
        SHORTEST_INTERVAL
    } else {
        (duration - decrease) as u64
    }
}

/// The time since a repeating timer of the interval `duration` last came
/// round, `delta` nanoseconds after that time was `elapsed`.
pub open spec fn repeated_elapsed(duration: u64, elapsed: u64, delta: u64) -> u64 {
    ((elapsed + delta) % (duration as int)) as u64
}

/// How often a repeating timer of the interval `duration` comes round in
/// `delta` nanoseconds when `elapsed` had passed before, counted in 32 bits.
pub open spec fn repeated_times(duration: u64, elapsed: u64, delta: u64) -> u32 {
    (((elapsed + delta) / (duration as int)) % 0x1_0000_0000) as u32
}

/// Advances a repeating timer by `delta` nanoseconds and returns the time
/// since it last came round and how often it came round.
///
/// Trusted: a repeating `bevy::time::Timer` of the interval `duration` is
/// made with `Timer::new`, put at `elapsed` with `set_elapsed` and advanced
/// with `tick`; the result is read with `elapsed` and
/// `times_finished_this_tick`. The contract states what `tick` does to a
/// repeating timer that is not paused and whose interval is not zero: the
/// time passed is added to the elapsed time, the number of whole intervals
/// in the sum is reported, cut to 32 bits, and the remainder is kept as the
/// elapsed time.
#[verifier::external_body]
fn tick_repeating(duration: u64, elapsed: u64, delta: u64) -> (after: (u64, u32))
    requires
        duration > 0,
    ensures
        after.0 == repeated_elapsed(duration, elapsed, delta),
        after.1 == repeated_times(duration, elapsed, delta),
{
    let mut timer = bevy::time::Timer::new(
        std::time::Duration::from_nanos(duration),
        bevy::time::TimerMode::Repeating,
    );
    timer.set_elapsed(std::time::Duration::from_nanos(elapsed));
    timer.tick(std::time::Duration::from_nanos(delta));
    (timer.elapsed().as_nanos() as u64, timer.times_finished_this_tick())
}

impl SpawnTimer {
    /// The timer after `delta` nanoseconds: the interval has shrunk, and the
    /// time has passed on the shrunken interval.
    pub open spec fn after_update(self, delta: u64) -> SpawnTimer {
        let duration = shrunk(self.duration, self.interval_decrease, delta);
        SpawnTimer {
            duration,
            elapsed: repeated_elapsed(duration, self.elapsed, delta),
            times_finished: repeated_times(duration, self.elapsed, delta),
            interval_decrease: self.interval_decrease,
        }
    }

    /// A timer of the interval `initial_duration` on which no time has
    /// passed.
    pub fn new(initial_duration: u64, interval_decrease: u64) -> (timer: SpawnTimer)
        ensures
            timer == (SpawnTimer {
                duration: initial_duration,
                elapsed: 0,
                times_finished: 0,
                interval_decrease,
            }),
    {
        SpawnTimer { duration: initial_duration, elapsed: 0, times_finished: 0, interval_decrease }
    }

    /// Lets `delta` nanoseconds pass: first the interval shrinks, then the
    /// timer advances.
    pub fn update(&mut self, delta: u64)
        ensures
            *final(self) == old(self).after_update(delta),
    {
        assert(self.interval_decrease * delta <= 0xffff_ffff_ffff_ffff * 0xffff_ffff_ffff_ffff)
            by (nonlinear_arith)
            requires
                0 <= self.interval_decrease <= 0xffff_ffff_ffff_ffff,
                0 <= delta <= 0xffff_ffff_ffff_ffff,
        ;
        let decrease: u128 = (self.interval_decrease as u128) * (delta as u128) / (SECOND as u128);
        let duration: u64 = if decrease > self.duration as u128 || self.duration as u128 - decrease
            < SHORTEST_INTERVAL as u128 {
            SHORTEST_INTERVAL
        } else {
            (self.duration as u128 - decrease) as u64
        };
        let (elapsed, times_finished) = tick_repeating(duration, self.elapsed, delta);
        self.duration = duration;
        self.elapsed = elapsed;
        self.times_finished = times_finished;
    }

    /// Whether the interval came round in the last update.
    pub fn just_finished(&self) -> (done: bool)
        ensures
            done == (self.times_finished > 0),
    {
        self.times_finished > 0
    }
}

} // verus!
