//! A timer that is moved on by the time that each tick took. All times are
//! whole milliseconds.

use vstd::prelude::*;

verus! {

/// What a timer does when its time is up.
#[derive(Clone, Copy, Debug, PartialEq, Eq, Structural)]
pub enum TimerMode {
    /// It stays finished until it is reset.
    Once,
    /// It starts over, keeping the time by which it overshot.
    Repeating,
}

/// Counts time up to a duration.
#[derive(Clone, Copy, Debug, PartialEq, Eq, Structural)]
pub struct Timer {
    pub duration: u64,
    pub elapsed: u64,
    pub mode: TimerMode,
    /// Whether the last tick reached the duration.
    pub finished: bool,
}

impl Timer {
    /// The timer after a tick of `delta` milliseconds.
    ///
    /// A timer of mode `Once` that has finished stays as it is. Otherwise the
    /// time is added, and the timer has finished if that reaches the
    /// duration. A finished `Once` timer stops at its duration; a finished
    /// `Repeating` timer keeps what is left after whole durations are taken
    /// away (nothing, if the duration is zero).
    pub open spec fn ticked(self, delta: u32) -> Timer {
        if self.mode == TimerMode::Once && self.finished {
            self
        } else if self.elapsed + delta < self.duration {
            Timer { elapsed: (self.elapsed + delta) as u64, finished: false, ..self }
        } else if self.mode == TimerMode::Once {
            Timer { elapsed: self.duration, finished: true, ..self }
        } else if self.duration == 0 {
            Timer { elapsed: 0, finished: true, ..self }
        } else {
            Timer {
                elapsed: ((self.elapsed + delta) % (self.duration as int)) as u64,
                finished: true,
                ..self
            }
        }
    }

    /// A timer at zero.
    pub open spec fn spec_new(duration: u64, mode: TimerMode) -> Timer {
        Timer { duration, elapsed: 0, mode, finished: false }
    }

    /// A timer at zero.
    #[verifier::when_used_as_spec(spec_new)]
    pub fn new(duration: u64, mode: TimerMode) -> (timer: Timer)
        ensures
            timer == Timer::spec_new(duration, mode),
    {
        Timer { duration, elapsed: 0, mode, finished: false }
    }

    /// Whether the last tick reached the duration. For a repeating timer
    /// this holds only for the tick in which the time was up.
    pub fn finished(&self) -> (done: bool)
        ensures
            done == self.finished,
    {
        self.finished
    }

    /// The time counted so far.
    pub fn elapsed(&self) -> (time: u64)
        ensures
            time == self.elapsed,
    {
        self.elapsed
    }

    /// The time that the timer counts up to.
    pub fn duration(&self) -> (time: u64)
        ensures
            time == self.duration,
    {
        self.duration
    }

    /// Sets the time counted so far. Whether the timer has finished is
    /// decided by the next tick.
    pub fn set_elapsed(&mut self, time: u64)
        ensures
            *final(self) == (Timer { elapsed: time, ..*old(self) }),
    {
        self.elapsed = time;
    }

    /// Sets the time that the timer counts up to. The time counted so far
    /// stays.
    pub fn set_duration(&mut self, duration: u64)
        ensures
            *final(self) == (Timer { duration, ..*old(self) }),
    {
        self.duration = duration;
    }

    /// Starts over: no time counted, not finished.
    pub fn reset(&mut self)
        ensures
            *final(self) == (Timer { elapsed: 0, finished: false, ..*old(self) }),
    {
        self.elapsed = 0;
        self.finished = false;
    }

    /// The time that is left until the duration is reached.
    pub fn remaining(&self) -> (time: u64)
        requires
            self.elapsed <= self.duration,
        ensures
            time == self.duration - self.elapsed,
    {
        self.duration - self.elapsed
    }

    /// Moves the timer on by `delta` milliseconds.
    pub fn tick(&mut self, delta: u32)
        ensures
            *final(self) == old(self).ticked(delta),
    {
        if self.mode == TimerMode::Once && self.finished {
            return ;
        }
        let sum: u128 = self.elapsed as u128 + delta as u128;
        if sum < self.duration as u128 {
            self.elapsed = sum as u64;
            self.finished = false;
        } else if self.mode == TimerMode::Once {
            self.elapsed = self.duration;
            self.finished = true;
        } else if self.duration == 0 {
            self.elapsed = 0;
            self.finished = true;
        } else {
            let rest: u128 = sum % (self.duration as u128);
            self.elapsed = rest as u64;
            self.finished = true;
        }
    }
}

} // verus!
