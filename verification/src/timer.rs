//! A timer that runs an action once its time has come.

use vstd::prelude::*;

verus! {

/// What the timer's thread does next.
#[derive(Debug, Clone, Copy, PartialEq, Eq, Structural)]
pub enum TimerStep {
    /// Sleeps this many milliseconds, then looks again.
    Sleep(u64),
    /// Runs the action, and stops.
    Fire,
}

/// When a timer elapses, in milliseconds since the epoch; it can be moved.
#[derive(Debug)]
pub struct Timer {
    at: u64,
}

impl Timer {
    /// A timer that elapses at `at`.
    pub fn new(at: u64) -> (r: Self)
        ensures
            r.elapses_at_spec() == at,
    {
        Timer { at }
    }

    /// When the timer elapses.
    pub closed spec fn elapses_at_spec(&self) -> u64 {
        self.at
    }

    /// When the timer elapses.
    pub fn elapses_at(&self) -> (r: u64)
        ensures
            r == self.elapses_at_spec(),
    {
        self.at
    }

    /// Moves the time the timer elapses.
    pub fn set_at(&mut self, time: u64)
        ensures
            final(self).elapses_at_spec() == time,
    {
        self.at = time;
    }

    /// At `now`, sleeps until the time when it is not past, and otherwise
    /// runs the action.
    pub fn step(&self, now: u64) -> (r: TimerStep)
        ensures
            r == (if self.elapses_at_spec() >= now {
                TimerStep::Sleep((self.elapses_at_spec() - now) as u64)
            } else {
                TimerStep::Fire
            }),
    {
        if self.at >= now {
            TimerStep::Sleep(self.at - now)
        } else {
            TimerStep::Fire
        }
    }
}

} // verus!
