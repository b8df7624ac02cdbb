//! Timing core for tracking attempts at a run made of ordered segments.
//!
//! A [`Timer`] owns one [`Run`] and is driven by commands: start, split,
//! skip, undo, pause and reset. Every command is total: issued in a phase in
//! which it has no meaning, it leaves the timer as it was. The caller supplies
//! each clock reading, so the timer itself never looks at a clock.

pub mod comparison;
pub mod component;
pub mod run;
pub mod timing;

pub use comparison::{BuiltinComparison, CustomComparison};
pub use run::{export, import, Attempt, Image, ImportError, Run, Segment, SegmentTimes};
pub use timing::{Command, TimeSpan, TimeStamp, Timer, TimerPhase, TimingMethod};
