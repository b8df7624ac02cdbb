//! What the history of a run keeps of one attempt.

use crate::timing::{TimeSpan, TimeStamp, TimingMethod};
use vstd::prelude::*;

verus! {

/// What an `Attempt` stands for in contracts.
pub struct AttemptView {
    pub index: u32,
    pub started: TimeStamp,
    pub ended: Option<TimeStamp>,
    pub segment_times: Seq<Option<TimeSpan>>,
    pub timing_method: TimingMethod,
}

/// One attempt as the history of a run records it.
#[derive(Debug)]
pub struct Attempt {
    /// The number of the attempt within its run, counted from 1.
    pub index: u32,
    /// The clock reading at which the attempt was started.
    pub started: TimeStamp,
    /// The clock reading at which the last segment was split, if it was.
    pub ended: Option<TimeStamp>,
    /// The time taken for each segment alone, in the order of the segments.
    /// A segment that was skipped or never reached has none, and so has the
    /// segment that follows a skipped one.
    pub segment_times: Vec<Option<TimeSpan>>,
    /// The timing method under which the times were taken.
    pub timing_method: TimingMethod,
}

impl View for Attempt {
    type V = AttemptView;

    open spec fn view(&self) -> AttemptView {
        AttemptView {
            index: self.index,
            started: self.started,
            ended: self.ended,
            segment_times: self.segment_times@,
            timing_method: self.timing_method,
        }
    }
}

impl AttemptView {
    /// The time that the attempt took for segment `i` under `method`, if the
    /// attempt was timed by `method` and has a time for that segment.
    pub open spec fn segment_time(self, method: TimingMethod, i: int) -> Option<TimeSpan> {
        if self.timing_method == method && 0 <= i < self.segment_times.len() {
            self.segment_times[i]
        } else {
            None
        }
    }
}

impl Attempt {
    /// The time that the attempt took for segment `i` under `method`.
    pub fn segment_time(&self, method: TimingMethod, i: usize) -> (r: Option<TimeSpan>)
        ensures
            r == self@.segment_time(method, i as int),
    {
        if self.timing_method == method && i < self.segment_times.len() {
            self.segment_times[i]
        } else {
            None
        }
    }
}

/// The time taken for segment `i` alone, as the split times of an attempt
/// show it: the split time of the first segment, and for every other segment
/// the time from the split before it. It is known only where both splits
/// were recorded.
pub open spec fn segment_time_at(split_times: Seq<Option<TimeSpan>>, i: int) -> Option<TimeSpan> {
    if 0 <= i < split_times.len() {
        match split_times[i] {
            Some(split) => {
                if i == 0 {
                    Some(split)
                } else {
                    match split_times[i - 1] {
                        Some(before) => Some(split.minus(before)),
                        None => None,
                    }
                }
            },
            None => None,
        }
    } else {
        None
    }
}

/// The time taken for each segment alone, as the split times of an attempt
/// show it.
pub open spec fn segment_times_of(split_times: Seq<Option<TimeSpan>>) -> Seq<Option<TimeSpan>> {
    Seq::new(split_times.len(), |i: int| segment_time_at(split_times, i))
}

/// Turns the split times of an attempt into the times taken for each segment
/// alone.
pub fn segment_times_from_splits(split_times: &Vec<Option<TimeSpan>>) -> (r: Vec<Option<TimeSpan>>)
    ensures
        r@ == segment_times_of(split_times@),
{
    let mut result: Vec<Option<TimeSpan>> = Vec::new();
    let mut i: usize = 0;
    while i < split_times.len()
        invariant
            i <= split_times@.len(),
            result@.len() == i,
            forall|j: int| 0 <= j < i ==> #[trigger] result@[j] == segment_time_at(split_times@, j),
        decreases split_times@.len() - i,
    {
        let time = match split_times[i] {
            Some(split) => {
                if i == 0 {
                    Some(split)
                } else {
                    match split_times[i - 1] {
                        Some(before) => Some(split - before),
                        None => None,
                    }
                }
            },
            None => None,
        };
        result.push(time);
        i += 1;
    }
    assert(result@ =~= segment_times_of(split_times@));
    result
}

impl Clone for Attempt {
    fn clone(&self) -> (r: Attempt)
        ensures
            r@ == self@,
    {
        Attempt {
            index: self.index,
            started: self.started,
            ended: self.ended,
            segment_times: self.segment_times.clone(),
            timing_method: self.timing_method,
        }
    }
}

} // verus!
