//! The formatter for times in general.

use crate::timing::formatter::digits::{
    clock, digit_char, push_clock, push_digit, push_point, push_sign, push_three_digits,
    push_two_digits, sign, three_digits, two_digits, whole_seconds,
};
use crate::timing::formatter::{
    extract_hundredths, extract_milliseconds, extract_tenths, fraction_digits, TimeFormatter, DASH,
};
use crate::timing::time_span::TimeSpan;
use vstd::prelude::*;

verus! {

/// How many digits are shown behind the seconds.
#[derive(Clone, Copy, Debug, PartialEq, Eq, Structural, Hash)]
pub enum Accuracy {
    /// None: `1:23`.
    Seconds,
    /// One: `1:23.4`.
    Tenths,
    /// Two: `1:23.45`.
    Hundredths,
    /// Three: `1:23.456`.
    Milliseconds,
}

impl Accuracy {
    /// The digits behind the seconds of a duration of `nanos` nanoseconds,
    /// with the decimal point before them.
    pub open spec fn fraction(self, nanos: int) -> Seq<char> {
        match self {
            Accuracy::Seconds => Seq::empty(),
            Accuracy::Tenths => seq!['.', digit_char(fraction_digits(nanos, 10))],
            Accuracy::Hundredths => seq!['.'] + two_digits(fraction_digits(nanos, 100) as nat),
            Accuracy::Milliseconds => seq!['.'] + three_digits(fraction_digits(nanos, 1000) as nat),
        }
    }

    /// Appends the digits behind the seconds of `time`.
    pub fn push_fraction(self, text: &mut String, time: TimeSpan)
        ensures
            final(text)@ == old(text)@ + self.fraction(time@),
    {
        match self {
            Accuracy::Seconds => {
                assert(text@ =~= old(text)@ + self.fraction(time@));
            },
            Accuracy::Tenths => {
                push_point(text);
                push_digit(text, extract_tenths(time));
                assert(text@ =~= old(text)@ + self.fraction(time@));
            },
            Accuracy::Hundredths => {
                push_point(text);
                push_two_digits(text, extract_hundredths(time) as u64);
                assert(text@ =~= old(text)@ + self.fraction(time@));
            },
            Accuracy::Milliseconds => {
                push_point(text);
                push_three_digits(text, extract_milliseconds(time) as u64);
                assert(text@ =~= old(text)@ + self.fraction(time@));
            },
        }
    }
}

/// Shows a time with its minutes, also where there are none, and with as
/// many digits behind the seconds as its accuracy says: `0:07`, `−1:02:03.4`.
/// Where there is no time it shows a dash.
#[derive(Clone, Copy, Debug, PartialEq, Eq)]
pub struct Regular {
    pub accuracy: Accuracy,
}

impl Regular {
    /// The formatter that shows whole seconds.
    pub fn new() -> (r: Regular)
        ensures
            r.accuracy == Accuracy::Seconds,
    {
        Regular { accuracy: Accuracy::Seconds }
    }

    /// The formatter that shows `accuracy` digits behind the seconds.
    pub fn with_accuracy(accuracy: Accuracy) -> (r: Regular)
        ensures
            r.accuracy == accuracy,
    {
        Regular { accuracy }
    }
}

impl TimeFormatter for Regular {
    open spec fn formatted(&self, time: Option<TimeSpan>) -> Seq<char> {
        match time {
            Some(time) => sign(time@) + clock(whole_seconds(time@), true) + self.accuracy.fraction(
                time@,
            ),
            None => DASH@,
        }
    }

    fn format(&self, time: Option<TimeSpan>) -> (r: String) {
        match time {
            Some(time) => {
                let mut text = String::new();
                push_sign(&mut text, time);
                push_clock(&mut text, time, true);
                self.accuracy.push_fraction(&mut text, time);
                assert(text@ =~= self.formatted(Some(time)));
                text
            },
            None => DASH.to_owned(),
        }
    }
}

} // verus!
