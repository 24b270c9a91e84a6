//! A manually reset countdown, the one time-based primitive of the core.
//!
//! A timer has a fixed duration and a remaining time, both in milliseconds,
//! and a one-shot `ready` flag: once the remaining time reaches zero the flag
//! is set and stays set until `reset` is called. The timer never advances on
//! its own; the caller feeds it elapsed time through `update`.
use vstd::prelude::*;

verus! {

#[derive(Clone, Copy, PartialEq, Eq, Structural, Debug)]
pub struct Timer {
    /// The full duration of the countdown, in milliseconds.
    pub duration_ms: u64,
    /// The time still to run, in milliseconds.
    pub time_left_ms: u64,
    /// Set once the remaining time reaches zero; cleared only by `reset`.
    pub ready: bool,
}

impl Timer {
    /// The remaining time never exceeds the duration, and the one-shot flag
    /// is set only while the countdown sits at zero.
    pub open spec fn wf(self) -> bool {
        &&& self.time_left_ms <= self.duration_ms
        &&& (self.ready ==> self.time_left_ms == 0)
    }

    /// The state `update` leaves behind: while not ready, the remaining time
    /// drops by the elapsed time (saturating at zero), and hitting zero sets
    /// the one-shot flag; once ready, nothing changes.
    pub open spec fn spec_update(self, delta_ms: u64) -> Timer {
        if self.ready {
            self
        } else if delta_ms >= self.time_left_ms {
            Timer { time_left_ms: 0, ready: true, ..self }
        } else {
            Timer { time_left_ms: (self.time_left_ms - delta_ms) as u64, ..self }
        }
    }

    /// The state `reset` leaves behind: a fresh countdown of the same duration.
    pub open spec fn spec_reset(self) -> Timer {
        Timer { time_left_ms: self.duration_ms, ready: false, ..self }
    }

    pub fn from_millis(duration_ms: u64) -> (t: Timer)
        ensures
            t == (Timer { duration_ms, time_left_ms: duration_ms, ready: false }),
            t.wf(),
    {
        Timer { duration_ms, time_left_ms: duration_ms, ready: false }
    }

    /// Advance the countdown by `delta_ms` of elapsed time.
    pub fn update(&mut self, delta_ms: u64)
        ensures
            *final(self) == old(self).spec_update(delta_ms),
            old(self).wf() ==> final(self).wf(),
    {
        if !self.ready {
            if delta_ms >= self.time_left_ms {
                self.time_left_ms = 0;
                self.ready = true;
            } else {
                self.time_left_ms = self.time_left_ms - delta_ms;
            }
        }
    }

    /// Wind the countdown back to its full duration and clear the flag.
    pub fn reset(&mut self)
        ensures
            *final(self) == old(self).spec_reset(),
            final(self).wf(),
    {
        self.time_left_ms = self.duration_ms;
        self.ready = false;
    }
}

} // verus!
