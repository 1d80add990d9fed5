//! Countdown/repeat timers, the clock behind every timed behaviour: enemy
//! fire rate, the respawn delay, effect lifetimes and the wave schedule.

use vstd::prelude::*;

verus! {

/// Upper bound on a timer duration, in milliseconds (about 35 years).
pub const DURATION_MAX_MS: u64 = 0x100_0000_0000;

/// Upper bound on the elapsed time handed to one tick, in milliseconds.
pub const DELTA_MAX_MS: u64 = 0x100_0000_0000;

/// Whether a timer completes once and stays completed, or wraps and repeats.
#[derive(Clone, Copy, PartialEq, Eq, Structural, Debug)]
pub enum TimerMode {
    Once,
    Repeating,
}

/// An additive accumulator of elapsed milliseconds against a fixed duration.
///
/// `finished` reports whether the duration has been reached; `just_finished`
/// reports whether the duration boundary was crossed by the latest tick.
#[derive(Clone, Copy, Debug)]
pub struct Timer {
    pub duration_ms: u64,
    pub elapsed_ms: u64,
    pub mode: TimerMode,
    pub finished: bool,
    pub just_finished: bool,
}

impl Timer {
    /// Internal consistency: a positive, bounded duration; elapsed time within
    /// one period; a once-timer is finished exactly when its period is used up.
    pub open spec fn wf(self) -> bool {
        &&& 1 <= self.duration_ms <= DURATION_MAX_MS
        &&& match self.mode {
            TimerMode::Once => {
                &&& self.elapsed_ms <= self.duration_ms
                &&& (self.finished <==> self.elapsed_ms == self.duration_ms)
            }
            TimerMode::Repeating => self.elapsed_ms < self.duration_ms,
        }
    }

    /// The timer one tick of `delta` milliseconds later: a once-timer caps its
    /// elapsed time at the duration and stays finished; a repeating timer
    /// wraps its elapsed time modulo the duration.
    pub open spec fn spec_tick(self, delta: u64) -> Timer {
        match self.mode {
            TimerMode::Once => {
                if self.elapsed_ms + delta >= self.duration_ms {
                    Timer {
                        duration_ms: self.duration_ms,
                        elapsed_ms: self.duration_ms,
                        mode: self.mode,
                        finished: true,
                        just_finished: self.elapsed_ms < self.duration_ms,
                    }
                } else {
                    Timer {
                        duration_ms: self.duration_ms,
                        elapsed_ms: (self.elapsed_ms + delta) as u64,
                        mode: self.mode,
                        finished: false,
                        just_finished: false,
                    }
                }
            }
            TimerMode::Repeating => {
                Timer {
                    duration_ms: self.duration_ms,
                    elapsed_ms: ((self.elapsed_ms + delta) % (self.duration_ms as int)) as u64,
                    mode: self.mode,
                    finished: self.elapsed_ms + delta >= self.duration_ms,
                    just_finished: self.elapsed_ms + delta >= self.duration_ms,
                }
            }
        }
    }

    /// A fresh timer with nothing elapsed.
    pub fn new(duration_ms: u64, mode: TimerMode) -> (t: Timer)
        requires
            1 <= duration_ms <= DURATION_MAX_MS,
        ensures
            t == (Timer {
                duration_ms,
                elapsed_ms: 0u64,
                mode,
                finished: false,
                just_finished: false,
            }),
            t.wf(),
    {
        Timer { duration_ms, elapsed_ms: 0, mode, finished: false, just_finished: false }
    }

    /// Advance the timer by `delta_ms` and report whether it crossed its
    /// duration boundary during this call.
    pub fn tick(&mut self, delta_ms: u64) -> (r: bool)
        requires
            old(self).wf(),
            delta_ms <= DELTA_MAX_MS,
        ensures
            *final(self) == old(self).spec_tick(delta_ms),
            final(self).wf(),
            r == final(self).just_finished,
    {
        let total = self.elapsed_ms + delta_ms;
        match self.mode {
            TimerMode::Once => {
                if total >= self.duration_ms {
                    self.just_finished = self.elapsed_ms < self.duration_ms;
                    self.elapsed_ms = self.duration_ms;
                    self.finished = true;
                } else {
                    self.elapsed_ms = total;
                    self.finished = false;
                    self.just_finished = false;
                }
            }
            TimerMode::Repeating => {
                let crossed = total >= self.duration_ms;
                self.elapsed_ms = total % self.duration_ms;
                self.finished = crossed;
                self.just_finished = crossed;
            }
        }
        self.just_finished
    }
}

} // verus!
