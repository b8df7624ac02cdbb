//! Durations, clock readings and the two small enums that the timer and the
//! run share.

use vstd::prelude::*;

pub mod formatter;
pub mod laws;
pub mod time_span;
pub mod timer;

pub use time_span::TimeSpan;
pub use timer::{Command, Timer, TimerView};

verus! {

/// One of the two clocks by which the times of a run are kept.
#[derive(Clone, Copy, Debug, PartialEq, Eq, Structural, Hash)]
pub enum TimingMethod {
    /// Time as it passes for the runner.
    RealTime,
    /// Time as the activity itself reports it.
    GameTime,
}

impl TimingMethod {
    /// The other timing method.
    pub open spec fn other(self) -> TimingMethod {
        match self {
            TimingMethod::RealTime => TimingMethod::GameTime,
            TimingMethod::GameTime => TimingMethod::RealTime,
        }
    }

    /// Swaps real time for game time and back.
    pub fn toggled(self) -> (r: TimingMethod)
        ensures
            r == self.other(),
    {
        match self {
            TimingMethod::RealTime => TimingMethod::GameTime,
            TimingMethod::GameTime => TimingMethod::RealTime,
        }
    }
}

/// Where an attempt stands.
#[derive(Clone, Copy, Debug, PartialEq, Eq, Structural, Hash)]
pub enum TimerPhase {
    /// No attempt is open.
    NotStarted,
    /// An attempt is open and its clock advances.
    Running,
    /// The last segment of the attempt has been split.
    Ended,
    /// An attempt is open and its clock is held.
    Paused,
}

/// A reading of the caller's clock, in nanoseconds since that clock's origin.
#[derive(Clone, Copy, Debug, PartialEq, Eq, Structural, Hash)]
pub struct TimeStamp {
    pub nanos: u64,
}

impl TimeStamp {
    /// The time that passed from `earlier` to `self`, negative where `self`
    /// is the earlier of the two, clamped to what a `TimeSpan` holds.
    pub open spec fn elapsed_since(self, earlier: TimeStamp) -> TimeSpan {
        TimeSpan::of(self.nanos - earlier.nanos)
    }

    /// A reading of `nanos` nanoseconds past the clock's origin.
    pub fn from_nanos(nanos: u64) -> (r: TimeStamp)
        ensures
            r.nanos == nanos,
    {
        TimeStamp { nanos }
    }

    /// The time that passed from `earlier` to `self`.
    pub fn since(self, earlier: TimeStamp) -> (r: TimeSpan)
        ensures
            r == self.elapsed_since(earlier),
    {
        if self.nanos >= earlier.nanos {
            let d: u64 = self.nanos - earlier.nanos;
            if d > i64::MAX as u64 {
                TimeSpan::from_nanos(i64::MAX)
            } else {
                TimeSpan::from_nanos(d as i64)
            }
        } else {
            let d: u64 = earlier.nanos - self.nanos;
            if d > i64::MAX as u64 {
                TimeSpan::from_nanos(i64::MIN)
            } else {
                TimeSpan::from_nanos(-(d as i64))
            }
        }
    }
}

} // verus!
