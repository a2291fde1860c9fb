//! The shared event clock: a stopwatch that admins can pause, resume and
//! reset, observed by every connected client.
//!
//! The clock keeps the epoch millisecond of the last resume (`start`), the
//! running time accumulated before that resume (`prev`), and whether it is
//! currently paused.  Every operation is verified against a pure transition
//! function taking the current time as an argument; the wall-clock reading
//! itself is the only unverified step.

use vstd::prelude::*;

verus! {

#[derive(Clone, Copy, Debug, PartialEq, Eq, Structural)]
pub struct ClockState {
    /// Epoch milliseconds at the moment of the last resume.
    pub start: u128,
    /// Running time in milliseconds accumulated before the last resume.
    pub prev: u128,
    /// True while the clock is stopped.
    pub paused: bool,
}

/// Milliseconds elapsed from `start` to `now`, zero if the reading moved
/// backwards.
pub open spec fn spec_elapsed(start: u128, now: u128) -> u128 {
    if now >= start {
        (now - start) as u128
    } else {
        0
    }
}

/// `a + b` capped at the largest representable value.
pub open spec fn spec_saturating_add(a: u128, b: u128) -> u128 {
    if a + b <= u128::MAX {
        (a + b) as u128
    } else {
        u128::MAX
    }
}

/// The state after `pause` is requested at time `now`.
pub open spec fn spec_pause(c: ClockState, now: u128) -> ClockState {
    if c.paused {
        c
    } else {
        ClockState {
            start: c.start,
            prev: spec_saturating_add(c.prev, spec_elapsed(c.start, now)),
            paused: true,
        }
    }
}

/// The state after `resume` is requested at time `now`.
pub open spec fn spec_resume(c: ClockState, now: u128) -> ClockState {
    if c.paused {
        ClockState { start: now, prev: c.prev, paused: false }
    } else {
        c
    }
}

/// The running total the clock reports at time `now`.
pub open spec fn spec_duration(c: ClockState, now: u128) -> u128 {
    if c.paused {
        c.prev
    } else {
        spec_saturating_add(c.prev, spec_elapsed(c.start, now))
    }
}

impl ClockState {
    /// A fresh clock: zeroed and paused.
    pub fn new() -> (c: ClockState)
        ensures
            c == (ClockState { start: 0u128, prev: 0u128, paused: true }),
    {
        ClockState { start: 0, prev: 0, paused: true }
    }

    /// Reads the wall clock as epoch milliseconds.
    ///
    /// Relies on `std::time::SystemTime::now` and
    /// `Duration::since / as_millis`: the value is the current time and
    /// nothing can be promised of it.
    #[verifier::external_body]
    pub fn get_curr_time() -> u128 {
        std::time::SystemTime::now()
            .duration_since(std::time::SystemTime::UNIX_EPOCH)
            .map(|d| d.as_millis())
            .unwrap_or(0)
    }

    /// Pure pause step: folds the time run since `start` into `prev`.
    pub fn pause_at(&mut self, now: u128)
        ensures
            *final(self) == spec_pause(*old(self), now),
    {
        if !self.paused {
            self.paused = true;
            let elapsed: u128 = if now >= self.start { now - self.start } else { 0 };
            self.prev = if self.prev <= u128::MAX - elapsed {
                self.prev + elapsed
            } else {
                u128::MAX
            };
        }
    }

    /// Stops the clock; a no-op when already paused.
    pub fn pause(&mut self)
        ensures
            final(self).paused,
            final(self).start == old(self).start,
            old(self).paused ==> *final(self) == *old(self),
            exists|now: u128| *final(self) == #[trigger] spec_pause(*old(self), now),
    {
        let now = Self::get_curr_time();
        self.pause_at(now);
        proof {
            assert(*self == spec_pause(*old(self), now));
        }
    }

    /// Pure resume step: restarts counting from `now`.
    pub fn resume_at(&mut self, now: u128)
        ensures
            *final(self) == spec_resume(*old(self), now),
    {
        if self.paused {
            self.paused = false;
            self.start = now;
        }
    }

    /// Restarts the clock; a no-op when already running.
    pub fn resume(&mut self)
        ensures
            !final(self).paused,
            final(self).prev == old(self).prev,
            !old(self).paused ==> *final(self) == *old(self),
            exists|now: u128| *final(self) == #[trigger] spec_resume(*old(self), now),
    {
        let now = Self::get_curr_time();
        self.resume_at(now);
        proof {
            assert(*self == spec_resume(*old(self), now));
        }
    }

    /// Zeroes the clock and lets it count again immediately.  Observed
    /// behaviour: a reset clock is *running*, not stopped.
    pub fn reset(&mut self)
        ensures
            *final(self) == (ClockState { start: 0u128, prev: 0u128, paused: false }),
    {
        self.start = 0;
        self.prev = 0;
        self.paused = false;
    }

    /// Pure duration reading at time `now`.
    pub fn duration_at(&self, now: u128) -> (d: u128)
        ensures
            d == spec_duration(*self, now),
    {
        if self.paused {
            self.prev
        } else {
            let elapsed: u128 = if now >= self.start { now - self.start } else { 0 };
            if self.prev <= u128::MAX - elapsed {
                self.prev + elapsed
            } else {
                u128::MAX
            }
        }
    }

    /// Total running time: `prev` plus the stretch since the last resume
    /// when the clock is running.
    pub fn get_duration(&self) -> (d: u128)
        ensures
            self.paused ==> d == self.prev,
            exists|now: u128| d == #[trigger] spec_duration(*self, now),
    {
        let now = Self::get_curr_time();
        let d = self.duration_at(now);
        proof {
            assert(d == spec_duration(*self, now));
        }
        d
    }

    /// A consistent copy of the three fields.
    pub fn get_copy(&self) -> (c: ClockState)
        ensures
            c == *self,
    {
        ClockState { start: self.start, prev: self.prev, paused: self.paused }
    }
}

/// Pausing at `t1` and resuming at `t2` preserves the reported duration:
/// at the moment of the resume the clock reads exactly what it reported
/// when it was paused.
pub proof fn lemma_pause_resume_preserves_duration(c: ClockState, t1: u128, t2: u128)
    ensures
        spec_duration(spec_resume(spec_pause(c, t1), t2), t2) == spec_duration(c, t1),
{
}

} // verus!
