//! Custom comparisons, which a run stores beside its built-in ones.

use crate::timing::{TimeSpan, TimingMethod};
use vstd::prelude::*;

verus! {

/// What a `CustomComparison` stands for in contracts.
pub struct CustomComparisonView {
    pub name: Seq<char>,
    pub real_time: Seq<Option<TimeSpan>>,
    pub game_time: Seq<Option<TimeSpan>>,
}

/// A named comparison that stores its times: for each timing method one
/// split time per segment, in the order of the segments.
#[derive(Debug)]
pub struct CustomComparison {
    /// The name by which the comparison is selected.
    pub name: String,
    /// The split times under real time.
    pub real_time: Vec<Option<TimeSpan>>,
    /// The split times under game time.
    pub game_time: Vec<Option<TimeSpan>>,
}

impl View for CustomComparison {
    type V = CustomComparisonView;

    open spec fn view(&self) -> CustomComparisonView {
        CustomComparisonView {
            name: self.name@,
            real_time: self.real_time@,
            game_time: self.game_time@,
        }
    }
}

impl CustomComparisonView {
    /// The stored split times for `method`.
    pub open spec fn times(self, method: TimingMethod) -> Seq<Option<TimeSpan>> {
        match method {
            TimingMethod::RealTime => self.real_time,
            TimingMethod::GameTime => self.game_time,
        }
    }

    /// The stored split time of segment `i` for `method`. A segment for
    /// which nothing is stored has none.
    pub open spec fn time_at(self, method: TimingMethod, i: int) -> Option<TimeSpan> {
        if 0 <= i < self.times(method).len() {
            self.times(method)[i]
        } else {
            None
        }
    }
}

impl CustomComparison {
    /// The stored split time of segment `i` for `method`.
    pub fn time_at(&self, method: TimingMethod, i: usize) -> (r: Option<TimeSpan>)
        ensures
            r == self@.time_at(method, i as int),
    {
        match method {
            TimingMethod::RealTime => {
                if i < self.real_time.len() {
                    self.real_time[i]
                } else {
                    None
                }
            },
            TimingMethod::GameTime => {
                if i < self.game_time.len() {
                    self.game_time[i]
                } else {
                    None
                }
            },
        }
    }
}

impl Clone for CustomComparison {
    fn clone(&self) -> (r: CustomComparison)
        ensures
            r@ == self@,
    {
        CustomComparison {
            name: self.name.clone(),
            real_time: self.real_time.clone(),
            game_time: self.game_time.clone(),
        }
    }
}

} // verus!
