//! Formatting optional durations for display.
//!
//! A formatter is a pure function of the duration that it is given. The
//! formatters differ in how many digits they show behind the seconds and in
//! what they show where there is no time.

use crate::timing::time_span::{TimeSpan, NANOS_PER_SECOND};
use vstd::prelude::*;

pub mod digits;
pub mod regular;
pub mod segment_time;

pub use regular::{Accuracy, Regular};
pub use segment_time::SegmentTime;

verus! {

/// The dash that stands for a time that is not there.
pub const DASH: &'static str = "—";

/// The minus sign of negative times.
pub const MINUS: &'static str = "−";

/// The minus sign of negative times where only ASCII can be shown.
pub const ASCII_MINUS: &'static str = "-";

/// The plus sign of positive times.
pub const PLUS: &'static str = "+";

/// What is added to a scaled fraction of a second before it is cut off, in
/// billionths: a ten-millionth. It lets a fraction that lies a hair below a
/// digit's boundary show that digit.
pub const EPSILON: u64 = 100;

/// The digits of `nanos` behind the seconds, `scale` of them to a second:
/// the magnitude of the fraction of a second, scaled, raised by `EPSILON`,
/// cut off, and held at the largest value that the digits can show.
pub open spec fn fraction_digits(nanos: int, scale: int) -> int {
    let fraction = vstd::math::abs(nanos) % (NANOS_PER_SECOND as nat);
    let scaled = (fraction * scale + EPSILON) / (NANOS_PER_SECOND as int);
    if scaled > scale - 1 {
        scale - 1
    } else {
        scaled
    }
}

/// The fraction of a second of `time`, in nanoseconds.
fn fraction_of_second(time: TimeSpan) -> (r: u64)
    ensures
        r == vstd::math::abs(time@) % (NANOS_PER_SECOND as nat),
        r < 1_000_000_000,
{
    time.magnitude() % 1_000_000_000
}

/// The tenths of a second of `time`: 0 to 9.
pub fn extract_tenths(time: TimeSpan) -> (r: u8)
    ensures
        r == fraction_digits(time@, 10),
        r <= 9,
{
    let scaled = (fraction_of_second(time) * 10 + EPSILON) / 1_000_000_000;
    if scaled > 9 {
        9
    } else {
        scaled as u8
    }
}

/// The hundredths of a second of `time`: 0 to 99.
pub fn extract_hundredths(time: TimeSpan) -> (r: u8)
    ensures
        r == fraction_digits(time@, 100),
        r <= 99,
{
    let scaled = (fraction_of_second(time) * 100 + EPSILON) / 1_000_000_000;
    if scaled > 99 {
        99
    } else {
        scaled as u8
    }
}

/// The milliseconds of `time` within its second: 0 to 999.
pub fn extract_milliseconds(time: TimeSpan) -> (r: u16)
    ensures
        r == fraction_digits(time@, 1000),
        r <= 999,
{
    let scaled = (fraction_of_second(time) * 1000 + EPSILON) / 1_000_000_000;
    if scaled > 999 {
        999
    } else {
        scaled as u16
    }
}

/// A way of showing an optional duration as text.
pub trait TimeFormatter {
    /// The text that the formatter shows for `time`.
    spec fn formatted(&self, time: Option<TimeSpan>) -> Seq<char>;

    /// Shows `time` as text.
    fn format(&self, time: Option<TimeSpan>) -> (r: String)
        ensures
            r@ == self.formatted(time),
    ;
}

} // verus!
