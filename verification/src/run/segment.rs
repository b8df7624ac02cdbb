//! One checkpoint of a run.

use crate::run::image::{Image, ImageView};
use crate::timing::{TimeSpan, TimingMethod};
use vstd::prelude::*;

verus! {

/// The times that a segment keeps for one timing method.
#[derive(Clone, Copy, Debug, PartialEq, Eq, Structural)]
pub struct SegmentTimes {
    /// The split time of the personal best: the time from the start of the
    /// run to the end of this segment.
    pub split_time: Option<TimeSpan>,
    /// The shortest time ever taken for this segment alone.
    pub best_segment_time: Option<TimeSpan>,
}

impl SegmentTimes {
    /// No time recorded.
    pub open spec fn empty() -> SegmentTimes {
        SegmentTimes { split_time: None, best_segment_time: None }
    }
}

/// What a `Segment` stands for in contracts.
pub struct SegmentView {
    pub name: Seq<char>,
    pub icon: ImageView,
    pub real_time: SegmentTimes,
    pub game_time: SegmentTimes,
}

impl SegmentView {
    /// The times kept for `method`.
    pub open spec fn times(self, method: TimingMethod) -> SegmentTimes {
        match method {
            TimingMethod::RealTime => self.real_time,
            TimingMethod::GameTime => self.game_time,
        }
    }

    /// The segment with the times for `method` replaced.
    pub open spec fn with_times(self, method: TimingMethod, times: SegmentTimes) -> SegmentView {
        match method {
            TimingMethod::RealTime => SegmentView { real_time: times, ..self },
            TimingMethod::GameTime => SegmentView { game_time: times, ..self },
        }
    }

    /// The segment with the split time for `method` replaced.
    pub open spec fn with_split_time(self, method: TimingMethod, time: Option<TimeSpan>) -> SegmentView {
        self.with_times(method, SegmentTimes { split_time: time, ..self.times(method) })
    }

    /// The segment with the best segment time for `method` replaced.
    pub open spec fn with_best_segment_time(
        self,
        method: TimingMethod,
        time: Option<TimeSpan>,
    ) -> SegmentView {
        self.with_times(method, SegmentTimes { best_segment_time: time, ..self.times(method) })
    }
}

/// One checkpoint of a run: its name, its icon, and its times under each
/// timing method.
#[derive(Debug)]
pub struct Segment {
    name: String,
    icon: Image,
    real_time: SegmentTimes,
    game_time: SegmentTimes,
}

impl View for Segment {
    type V = SegmentView;

    closed spec fn view(&self) -> SegmentView {
        SegmentView {
            name: self.name@,
            icon: self.icon@,
            real_time: self.real_time,
            game_time: self.game_time,
        }
    }
}

impl Segment {
    /// A segment with a name and nothing else.
    pub fn new(name: String) -> (r: Segment)
        ensures
            r@ == (SegmentView {
                name: name@,
                icon: ImageView::unset(),
                real_time: SegmentTimes::empty(),
                game_time: SegmentTimes::empty(),
            }),
    {
        Segment {
            name,
            icon: Image::new(),
            real_time: SegmentTimes { split_time: None, best_segment_time: None },
            game_time: SegmentTimes { split_time: None, best_segment_time: None },
        }
    }

    /// Rebuilds a segment from its parts.
    pub fn from_parts(name: String, icon: Image, real_time: SegmentTimes, game_time: SegmentTimes) -> (r:
        Segment)
        ensures
            r@ == (SegmentView { name: name@, icon: icon@, real_time, game_time }),
    {
        Segment { name, icon, real_time, game_time }
    }

    pub fn name(&self) -> (r: &String)
        ensures
            r@ == self@.name,
    {
        &self.name
    }

    pub fn set_name(&mut self, name: String)
        ensures
            final(self)@ == (SegmentView { name: name@, ..old(self)@ }),
    {
        self.name = name;
    }

    pub fn icon(&self) -> (r: &Image)
        ensures
            r@ == self@.icon,
    {
        &self.icon
    }

    /// Replaces the icon's reference and moves its version on.
    pub fn set_icon(&mut self, url: String)
        ensures
            final(self)@ == (SegmentView { icon: old(self)@.icon.modified(url@), ..old(self)@ }),
    {
        self.icon.modify(url);
    }

    /// The times kept for `method`.
    pub fn times(&self, method: TimingMethod) -> (r: SegmentTimes)
        ensures
            r == self@.times(method),
    {
        match method {
            TimingMethod::RealTime => self.real_time,
            TimingMethod::GameTime => self.game_time,
        }
    }

    /// The split time of the personal best under `method`.
    pub fn split_time(&self, method: TimingMethod) -> (r: Option<TimeSpan>)
        ensures
            r == self@.times(method).split_time,
    {
        self.times(method).split_time
    }

    /// The best time for this segment alone under `method`.
    pub fn best_segment_time(&self, method: TimingMethod) -> (r: Option<TimeSpan>)
        ensures
            r == self@.times(method).best_segment_time,
    {
        self.times(method).best_segment_time
    }

    pub fn set_split_time(&mut self, method: TimingMethod, time: Option<TimeSpan>)
        ensures
            final(self)@ == old(self)@.with_split_time(method, time),
    {
        match method {
            TimingMethod::RealTime => {
                self.real_time.split_time = time;
            },
            TimingMethod::GameTime => {
                self.game_time.split_time = time;
            },
        }
    }

    pub fn set_best_segment_time(&mut self, method: TimingMethod, time: Option<TimeSpan>)
        ensures
            final(self)@ == old(self)@.with_best_segment_time(method, time),
    {
        match method {
            TimingMethod::RealTime => {
                self.real_time.best_segment_time = time;
            },
            TimingMethod::GameTime => {
                self.game_time.best_segment_time = time;
            },
        }
    }
}

impl Clone for Segment {
    fn clone(&self) -> (r: Segment)
        ensures
            r@ == self@,
    {
        Segment {
            name: self.name.clone(),
            icon: self.icon.clone(),
            real_time: self.real_time,
            game_time: self.game_time,
        }
    }
}

} // verus!
