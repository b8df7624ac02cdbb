//! Signed durations with nanosecond resolution.

use std::cmp::Ordering;
use std::ops::{Add, Neg, Sub};
use vstd::prelude::*;
use vstd::std_specs::cmp::PartialOrdSpecImpl;
use vstd::std_specs::ops::{AddSpecImpl, NegSpecImpl, SubSpecImpl};

verus! {

/// The number of nanoseconds in one second.
pub const NANOS_PER_SECOND: i64 = 1_000_000_000;

/// The number of nanoseconds in one millisecond.
pub const NANOS_PER_MILLISECOND: i64 = 1_000_000;

/// Clamps an integer into the range that a `TimeSpan` can hold.
pub open spec fn saturate(n: int) -> int {
    if n < i64::MIN {
        i64::MIN as int
    } else if n > i64::MAX {
        i64::MAX as int
    } else {
        n
    }
}

/// A signed duration, counted in nanoseconds.
///
/// Zero is an ordinary value. Where a time may be absent, callers hold an
/// `Option<TimeSpan>`. Arithmetic saturates at the ends of the range, so the
/// sign of a result is always the sign of the exact result.
#[derive(Clone, Copy, Debug, PartialEq, Eq, Structural, Hash)]
pub struct TimeSpan {
    pub nanos: i64,
}

impl View for TimeSpan {
    type V = int;

    open spec fn view(&self) -> int {
        self.nanos as int
    }
}

impl TimeSpan {
    /// The duration of `n` nanoseconds, clamped to the representable range.
    pub open spec fn of(n: int) -> TimeSpan {
        TimeSpan { nanos: saturate(n) as i64 }
    }

    /// The sum of two durations, clamped to the representable range.
    pub open spec fn plus(self, rhs: TimeSpan) -> TimeSpan {
        TimeSpan::of(self@ + rhs@)
    }

    /// The difference of two durations, clamped to the representable range.
    pub open spec fn minus(self, rhs: TimeSpan) -> TimeSpan {
        TimeSpan::of(self@ - rhs@)
    }

    /// The negated duration, clamped to the representable range.
    pub open spec fn negated(self) -> TimeSpan {
        TimeSpan::of(-self@)
    }

    /// The empty duration.
    pub fn zero() -> (r: TimeSpan)
        ensures
            r@ == 0,
    {
        TimeSpan { nanos: 0 }
    }

    /// A duration of `nanos` nanoseconds.
    pub fn from_nanos(nanos: i64) -> (r: TimeSpan)
        ensures
            r@ == nanos,
    {
        TimeSpan { nanos }
    }

    /// A duration of `millis` milliseconds, clamped to the representable
    /// range.
    pub fn from_millis(millis: i64) -> (r: TimeSpan)
        ensures
            r == TimeSpan::of(millis * NANOS_PER_MILLISECOND),
    {
        clamp_to_span(millis as i128 * 1_000_000)
    }

    /// A duration of `seconds` whole seconds, clamped to the representable
    /// range.
    pub fn from_seconds(seconds: i64) -> (r: TimeSpan)
        ensures
            r == TimeSpan::of(seconds * NANOS_PER_SECOND),
    {
        clamp_to_span(seconds as i128 * 1_000_000_000)
    }

    /// The whole duration in nanoseconds.
    pub fn total_nanos(&self) -> (r: i64)
        ensures
            r == self@,
    {
        self.nanos
    }

    /// The magnitude of the duration in nanoseconds.
    pub fn magnitude(&self) -> (r: u64)
        ensures
            r == vstd::math::abs(self@),
    {
        if self.nanos >= 0 {
            self.nanos as u64
        } else {
            (-(self.nanos as i128)) as u64
        }
    }

    /// Whether the duration lies before zero.
    pub fn is_negative(&self) -> (r: bool)
        ensures
            r == (self@ < 0),
    {
        self.nanos < 0
    }
}

/// Clamps a wide intermediate result into a `TimeSpan`.
fn clamp_to_span(n: i128) -> (r: TimeSpan)
    ensures
        r == TimeSpan::of(n as int),
{
    if n < i64::MIN as i128 {
        TimeSpan { nanos: i64::MIN }
    } else if n > i64::MAX as i128 {
        TimeSpan { nanos: i64::MAX }
    } else {
        TimeSpan { nanos: n as i64 }
    }
}

impl Add for TimeSpan {
    type Output = TimeSpan;

    fn add(self, rhs: TimeSpan) -> (r: TimeSpan) {
        clamp_to_span(self.nanos as i128 + rhs.nanos as i128)
    }
}

impl AddSpecImpl for TimeSpan {
    open spec fn obeys_add_spec() -> bool {
        true
    }

    open spec fn add_req(self, rhs: TimeSpan) -> bool {
        true
    }

    open spec fn add_spec(self, rhs: TimeSpan) -> TimeSpan {
        self.plus(rhs)
    }
}

impl Sub for TimeSpan {
    type Output = TimeSpan;

    fn sub(self, rhs: TimeSpan) -> (r: TimeSpan) {
        clamp_to_span(self.nanos as i128 - rhs.nanos as i128)
    }
}

impl SubSpecImpl for TimeSpan {
    open spec fn obeys_sub_spec() -> bool {
        true
    }

    open spec fn sub_req(self, rhs: TimeSpan) -> bool {
        true
    }

    open spec fn sub_spec(self, rhs: TimeSpan) -> TimeSpan {
        self.minus(rhs)
    }
}

impl Neg for TimeSpan {
    type Output = TimeSpan;

    fn neg(self) -> (r: TimeSpan) {
        clamp_to_span(-(self.nanos as i128))
    }
}

impl NegSpecImpl for TimeSpan {
    open spec fn obeys_neg_spec() -> bool {
        true
    }

    open spec fn neg_req(self) -> bool {
        true
    }

    open spec fn neg_spec(self) -> TimeSpan {
        self.negated()
    }
}

impl PartialOrd for TimeSpan {
    fn partial_cmp(&self, other: &TimeSpan) -> (r: Option<Ordering>) {
        if self.nanos < other.nanos {
            Some(Ordering::Less)
        } else if self.nanos > other.nanos {
            Some(Ordering::Greater)
        } else {
            Some(Ordering::Equal)
        }
    }
}

impl PartialOrdSpecImpl for TimeSpan {
    open spec fn obeys_partial_cmp_spec() -> bool {
        true
    }

    open spec fn partial_cmp_spec(&self, other: &TimeSpan) -> Option<Ordering> {
        if self.nanos < other.nanos {
            Some(Ordering::Less)
        } else if self.nanos > other.nanos {
            Some(Ordering::Greater)
        } else {
            Some(Ordering::Equal)
        }
    }
}

} // verus!
