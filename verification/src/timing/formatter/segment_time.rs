//! The formatter for the time of a single segment.

use crate::timing::formatter::digits::{
    clock, push_clock, push_point, push_sign, push_two_digits, sign, two_digits, whole_seconds,
};
use crate::timing::formatter::{extract_hundredths, fraction_digits, TimeFormatter, DASH};
use crate::timing::time_span::TimeSpan;
use vstd::prelude::*;

verus! {

/// Shows a time with hundredths of a second, and without minutes or hours
/// where there are none: `−4:23.50`, `7.03`. Where there is no time it shows
/// a dash.
#[derive(Clone, Copy, Debug, PartialEq, Eq)]
pub struct SegmentTime {}

impl SegmentTime {
    pub fn new() -> (r: SegmentTime) {
        SegmentTime {  }
    }
}

impl TimeFormatter for SegmentTime {
    open spec fn formatted(&self, time: Option<TimeSpan>) -> Seq<char> {
        match time {
            Some(time) => sign(time@) + clock(whole_seconds(time@), false) + seq!['.'] + two_digits(
                fraction_digits(time@, 100) as nat,
            ),
            None => DASH@,
        }
    }

    fn format(&self, time: Option<TimeSpan>) -> (r: String) {
        match time {
            Some(time) => {
                let mut text = String::new();
                push_sign(&mut text, time);
                push_clock(&mut text, time, false);
                push_point(&mut text);
                push_two_digits(&mut text, extract_hundredths(time) as u64);
                assert(text@ =~= self.formatted(Some(time)));
                text
            },
            None => DASH.to_owned(),
        }
    }
}

} // verus!
