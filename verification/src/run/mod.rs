//! The durable record: a run, its segments and the history of its attempts.

use crate::comparison::{
    is_builtin_name, lemma_builtin_names_differ, BuiltinComparison, CustomComparison,
    CustomComparisonView,
};
use crate::timing::{TimeSpan, TimingMethod};
use vstd::prelude::*;

pub mod attempt;
pub mod codec;
pub mod image;
pub mod segment;

pub use attempt::{
    segment_time_at, segment_times_from_splits, segment_times_of, Attempt, AttemptView,
};
pub use codec::{export, import, ImportError};
pub use image::{Image, ImageView};
pub use segment::{Segment, SegmentTimes, SegmentView};

verus! {

/// The views of the items of a sequence, in the same order.
pub open spec fn views<T: View>(items: Seq<T>) -> Seq<T::V> {
    Seq::new(items.len(), |i: int| items[i]@)
}

/// Whether `new_time` is to replace `best`: there is no best yet, or the
/// new time is strictly shorter.
pub open spec fn improves(best: Option<TimeSpan>, new_time: TimeSpan) -> bool {
    match best {
        None => true,
        Some(b) => new_time@ < b@,
    }
}

/// One more than `count`, held at the largest count.
pub open spec fn next_count(count: u32) -> u32 {
    if count == u32::MAX {
        count
    } else {
        (count + 1) as u32
    }
}

/// Whether the names set the comparisons apart from each other and from the
/// built-in comparisons.
pub open spec fn names_set_apart(comparisons: Seq<CustomComparisonView>) -> bool {
    &&& forall|i: int|
        0 <= i < comparisons.len() ==> !is_builtin_name((#[trigger] comparisons[i]).name)
    &&& forall|i: int, j: int|
        0 <= i < j < comparisons.len() ==> (#[trigger] comparisons[i]).name != (
        #[trigger] comparisons[j]).name
}

/// What a `Run` stands for in contracts.
pub struct RunView {
    pub game_icon: ImageView,
    pub game_name: Seq<char>,
    pub category_name: Seq<char>,
    pub segments: Seq<SegmentView>,
    pub attempt_count: u32,
    pub attempt_history: Seq<AttemptView>,
    pub custom_comparisons: Seq<CustomComparisonView>,
}

impl RunView {
    /// A run with nothing in it.
    pub open spec fn empty() -> RunView {
        RunView {
            game_icon: ImageView::unset(),
            game_name: Seq::empty(),
            category_name: Seq::empty(),
            segments: Seq::empty(),
            attempt_count: 0,
            attempt_history: Seq::empty(),
            custom_comparisons: Seq::empty(),
        }
    }

    /// Whether the custom comparisons of the run can be told apart by name,
    /// from each other and from the built-in ones.
    pub open spec fn wf(self) -> bool {
        names_set_apart(self.custom_comparisons)
    }

    /// Whether a custom comparison of the run is called `name`.
    pub open spec fn has_custom(self, name: Seq<char>) -> bool {
        exists|i: int|
            0 <= i < self.custom_comparisons.len() && (
            #[trigger] self.custom_comparisons[i]).name == name
    }

    /// The place of the custom comparison called `name`.
    pub open spec fn custom_position(self, name: Seq<char>) -> int {
        choose|i: int|
            0 <= i < self.custom_comparisons.len() && (
            #[trigger] self.custom_comparisons[i]).name == name
    }

    /// The run after `new_time` was offered as best time of segment `index`
    /// under `method`: it is taken where it improves on what is stored, and
    /// an `index` past the last segment changes nothing.
    pub open spec fn update_segment_best(
        self,
        index: int,
        method: TimingMethod,
        new_time: TimeSpan,
    ) -> RunView {
        if 0 <= index < self.segments.len() && improves(
            self.segments[index].times(method).best_segment_time,
            new_time,
        ) {
            RunView {
                segments: self.segments.update(
                    index,
                    self.segments[index].with_best_segment_time(method, Some(new_time)),
                ),
                ..self
            }
        } else {
            self
        }
    }

    /// The run after the split times of an attempt became its personal best
    /// under `method`: every segment takes the split time at its place, and
    /// none where `split_times` is too short.
    pub open spec fn commit_personal_best(
        self,
        split_times: Seq<Option<TimeSpan>>,
        method: TimingMethod,
    ) -> RunView {
        RunView {
            segments: Seq::new(
                self.segments.len(),
                |i: int|
                    self.segments[i].with_split_time(
                        method,
                        if i < split_times.len() {
                            split_times[i]
                        } else {
                            None
                        },
                    ),
            ),
            ..self
        }
    }

    /// The run after each of `segment_times` was offered as best time of the
    /// segment at its place under `method`.
    pub open spec fn update_segment_bests(
        self,
        segment_times: Seq<Option<TimeSpan>>,
        method: TimingMethod,
    ) -> RunView {
        RunView {
            segments: Seq::new(
                self.segments.len(),
                |i: int|
                    match time_at(segment_times, i) {
                        Some(time) => {
                            if improves(self.segments[i].times(method).best_segment_time, time) {
                                self.segments[i].with_best_segment_time(method, Some(time))
                            } else {
                                self.segments[i]
                            }
                        },
                        None => self.segments[i],
                    },
            ),
            ..self
        }
    }

    /// Whether an attempt with these split times beats the personal best
    /// under `method`: its last split was recorded, and the run has no
    /// personal best yet or one whose last split is strictly later.
    pub open spec fn is_beaten_by(self, split_times: Seq<Option<TimeSpan>>, method: TimingMethod) -> bool {
        let last = self.segments.len() - 1;
        &&& last >= 0
        &&& split_times.len() == self.segments.len()
        &&& match split_times[last] {
            Some(time) => improves(self.segments[last].times(method).split_time, time),
            None => false,
        }
    }

    /// The run after `entry` was added to its history.
    pub open spec fn append_history(self, entry: AttemptView) -> RunView {
        RunView {
            attempt_history: self.attempt_history.push(entry),
            attempt_count: next_count(self.attempt_count),
            ..self
        }
    }
}

/// A run: an ordered list of segments with the best times known for them,
/// the history of the attempts made at it, and its custom comparisons.
#[derive(Debug)]
pub struct Run {
    game_icon: Image,
    game_name: String,
    category_name: String,
    segments: Vec<Segment>,
    attempt_count: u32,
    attempt_history: Vec<Attempt>,
    custom_comparisons: Vec<CustomComparison>,
}

impl View for Run {
    type V = RunView;

    closed spec fn view(&self) -> RunView {
        RunView {
            game_icon: self.game_icon@,
            game_name: self.game_name@,
            category_name: self.category_name@,
            segments: views(self.segments@),
            attempt_count: self.attempt_count,
            attempt_history: views(self.attempt_history@),
            custom_comparisons: views(self.custom_comparisons@),
        }
    }
}

/// The time at place `i` of `times`, and none past its end.
pub open spec fn time_at(times: Seq<Option<TimeSpan>>, i: int) -> Option<TimeSpan> {
    if 0 <= i < times.len() {
        times[i]
    } else {
        None
    }
}

/// Gives every segment the split time at its place in `split_times`.
fn replace_split_times(
    segments: &mut Vec<Segment>,
    split_times: &Vec<Option<TimeSpan>>,
    method: TimingMethod,
)
    ensures
        final(segments)@.len() == old(segments)@.len(),
        forall|i: int|
            0 <= i < old(segments)@.len() ==> (#[trigger] final(segments)@[i])@ == old(
                segments,
            )@[i]@.with_split_time(method, time_at(split_times@, i)),
{
    let n = segments.len();
    let mut i: usize = 0;
    while i < n
        invariant
            i <= n,
            n == segments@.len(),
            n == old(segments)@.len(),
            forall|j: int|
                0 <= j < i ==> (#[trigger] segments@[j])@ == old(segments)@[j]@.with_split_time(
                    method,
                    time_at(split_times@, j),
                ),
            forall|j: int| i <= j < n ==> #[trigger] segments@[j] == old(segments)@[j],
        decreases n - i,
    {
        let time = if i < split_times.len() {
            split_times[i]
        } else {
            None
        };
        segments[i].set_split_time(method, time);
        i += 1;
    }
}

impl Run {
    /// A run with nothing in it.
    pub fn new() -> (r: Run)
        ensures
            r@ == RunView::empty(),
    {
        let r = Run {
            game_icon: Image::new(),
            game_name: String::new(),
            category_name: String::new(),
            segments: Vec::new(),
            attempt_count: 0,
            attempt_history: Vec::new(),
            custom_comparisons: Vec::new(),
        };
        assert(r@.segments =~= Seq::empty());
        assert(r@.attempt_history =~= Seq::empty());
        assert(r@.custom_comparisons =~= Seq::empty());
        r
    }

    /// Rebuilds a run from its parts. The custom comparisons are taken only
    /// if their names set them apart from each other and from the built-in
    /// comparisons; otherwise the parts come back untouched.
    pub fn from_parts(
        game_icon: Image,
        game_name: String,
        category_name: String,
        segments: Vec<Segment>,
        attempt_count: u32,
        attempt_history: Vec<Attempt>,
        custom_comparisons: Vec<CustomComparison>,
    ) -> (r: Option<Run>)
        ensures
            ({
                let view = RunView {
                    game_icon: game_icon@,
                    game_name: game_name@,
                    category_name: category_name@,
                    segments: views(segments@),
                    attempt_count,
                    attempt_history: views(attempt_history@),
                    custom_comparisons: views(custom_comparisons@),
                };
                match r {
                    Some(run) => view.wf() && run@ == view,
                    None => !view.wf(),
                }
            }),
    {
        if names_are_distinct(&custom_comparisons) {
            Some(
                Run {
                    game_icon,
                    game_name,
                    category_name,
                    segments,
                    attempt_count,
                    attempt_history,
                    custom_comparisons,
                },
            )
        } else {
            None
        }
    }

    /// Whether the names of the custom comparisons set them apart. Every
    /// run that this library hands out is well formed.
    pub fn is_well_formed(&self) -> (r: bool)
        ensures
            r == self@.wf(),
    {
        names_are_distinct(&self.custom_comparisons)
    }

    pub fn game_icon(&self) -> (r: &Image)
        ensures
            r@ == self@.game_icon,
    {
        &self.game_icon
    }

    /// Replaces the reference of the game's icon and moves its version on.
    pub fn set_game_icon(&mut self, url: String)
        ensures
            final(self)@ == (RunView { game_icon: old(self)@.game_icon.modified(url@), ..old(self)@ }),
    {
        self.game_icon.modify(url);
    }

    pub fn game_name(&self) -> (r: &String)
        ensures
            r@ == self@.game_name,
    {
        &self.game_name
    }

    pub fn set_game_name(&mut self, name: String)
        ensures
            final(self)@ == (RunView { game_name: name@, ..old(self)@ }),
    {
        self.game_name = name;
    }

    pub fn category_name(&self) -> (r: &String)
        ensures
            r@ == self@.category_name,
    {
        &self.category_name
    }

    pub fn set_category_name(&mut self, name: String)
        ensures
            final(self)@ == (RunView { category_name: name@, ..old(self)@ }),
    {
        self.category_name = name;
    }

    /// The number of attempts that the history has counted.
    pub fn attempt_count(&self) -> (r: u32)
        ensures
            r == self@.attempt_count,
    {
        self.attempt_count
    }

    pub fn set_attempt_count(&mut self, count: u32)
        ensures
            final(self)@ == (RunView { attempt_count: count, ..old(self)@ }),
    {
        self.attempt_count = count;
    }

    /// The number of segments.
    pub fn len(&self) -> (r: usize)
        ensures
            r == self@.segments.len(),
    {
        self.segments.len()
    }

    /// Whether the run has no segment.
    pub fn is_empty(&self) -> (r: bool)
        ensures
            r == (self@.segments.len() == 0),
    {
        self.segments.len() == 0
    }

    /// The segments, in the order of the checkpoints.
    pub fn segments(&self) -> (r: &Vec<Segment>)
        ensures
            views(r@) == self@.segments,
    {
        &self.segments
    }

    /// The segment at place `index`.
    pub fn segment(&self, index: usize) -> (r: &Segment)
        requires
            index < self@.segments.len(),
        ensures
            r@ == self@.segments[index as int],
    {
        &self.segments[index]
    }

    /// Adds a segment behind the last one.
    pub fn push_segment(&mut self, segment: Segment)
        ensures
            final(self)@ == (RunView {
                segments: old(self)@.segments.push(segment@),
                ..old(self)@
            }),
    {
        self.segments.push(segment);
        assert(self@.segments =~= old(self)@.segments.push(segment@));
    }

    /// The attempts made so far, oldest first.
    pub fn attempt_history(&self) -> (r: &Vec<Attempt>)
        ensures
            views(r@) == self@.attempt_history,
    {
        &self.attempt_history
    }

    /// The custom comparisons, in the order in which they were added.
    pub fn custom_comparisons(&self) -> (r: &Vec<CustomComparison>)
        ensures
            views(r@) == self@.custom_comparisons,
    {
        &self.custom_comparisons
    }

    /// The place of the custom comparison called `name`, if there is one.
    pub fn find_custom(&self, name: &String) -> (r: Option<usize>)
        ensures
            match r {
                Some(i) => i < self@.custom_comparisons.len() && self@.custom_comparisons[i as int].name
                    == name@,
                None => !self@.has_custom(name@),
            },
    {
        find_by_name(&self.custom_comparisons, name)
    }

    /// Adds a custom comparison behind the others. A comparison whose name
    /// is taken, by a built-in comparison or by a custom one, is handed back
    /// and the run stays as it was.
    pub fn add_custom_comparison(&mut self, comparison: CustomComparison) -> (r: Result<
        (),
        CustomComparison,
    >)
        ensures
            match r {
                Ok(_) => {
                    &&& !is_builtin_name(comparison@.name)
                    &&& !old(self)@.has_custom(comparison@.name)
                    &&& final(self)@ == (RunView {
                        custom_comparisons: old(self)@.custom_comparisons.push(comparison@),
                        ..old(self)@
                    })
                },
                Err(back) => {
                    &&& is_builtin_name(comparison@.name) || old(self)@.has_custom(comparison@.name)
                    &&& back == comparison
                    &&& final(self)@ == old(self)@
                },
            },
            old(self)@.wf() ==> final(self)@.wf(),
    {
        proof {
            lemma_builtin_names_differ();
        }
        if BuiltinComparison::from_name(&comparison.name).is_some() {
            return Err(comparison);
        }
        if let Some(taken) = find_by_name(&self.custom_comparisons, &comparison.name) {
            assert(self@.custom_comparisons[taken as int].name == comparison@.name);
            return Err(comparison);
        }
        self.custom_comparisons.push(comparison);
        assert(self@.custom_comparisons =~= old(self)@.custom_comparisons.push(comparison@));
        Ok(())
    }

    /// Removes the custom comparison called `name` and says whether there
    /// was one. The comparisons behind it move up.
    pub fn remove_custom_comparison(&mut self, name: &String) -> (r: bool)
        ensures
            r == old(self)@.has_custom(name@),
            !r ==> final(self)@ == old(self)@,
            r ==> exists|i: int|
                {
                    &&& 0 <= i < old(self)@.custom_comparisons.len()
                    &&& old(self)@.custom_comparisons[i].name == name@
                    &&& final(self)@ == (RunView {
                        custom_comparisons: old(self)@.custom_comparisons.remove(i),
                        ..old(self)@
                    })
                },
            old(self)@.wf() ==> final(self)@.wf(),
    {
        match find_by_name(&self.custom_comparisons, name) {
            Some(i) => {
                let _ = self.custom_comparisons.remove(i);
                assert(self@.custom_comparisons =~= old(self)@.custom_comparisons.remove(
                    i as int,
                ));
                assert(old(self)@.custom_comparisons[i as int].name == name@);
                assert(old(self)@.wf() ==> self@.wf()) by {
                    let before = old(self)@.custom_comparisons;
                    let after = self@.custom_comparisons;
                    assert forall|k: int| 0 <= k < after.len() implies #[trigger] after[k]
                        == before[if k < i { k } else { k + 1 }] by {}
                }
                true
            },
            None => false,
        }
    }

    /// Offers `new_time` as best time of segment `index` under `method`. It
    /// is stored only where no best time is known yet or where it is strictly
    /// shorter than the stored one.
    pub fn update_segment_best(&mut self, index: usize, method: TimingMethod, new_time: TimeSpan)
        ensures
            final(self)@ == old(self)@.update_segment_best(index as int, method, new_time),
    {
        if index < self.segments.len() {
            let better = match self.segments[index].best_segment_time(method) {
                None => true,
                Some(best) => new_time.nanos < best.nanos,
            };
            if better {
                self.segments[index].set_best_segment_time(method, Some(new_time));
                assert(self@.segments =~= old(self)@.segments.update(
                    index as int,
                    old(self)@.segments[index as int].with_best_segment_time(method, Some(new_time)),
                ));
            }
        }
    }

    /// Offers each of `segment_times` as best time of the segment at its
    /// place under `method`.
    pub fn update_segment_bests(
        &mut self,
        segment_times: &Vec<Option<TimeSpan>>,
        method: TimingMethod,
    )
        ensures
            final(self)@ == old(self)@.update_segment_bests(segment_times@, method),
    {
        let n = self.segments.len();
        let ghost before = self@;
        let ghost target = before.update_segment_bests(segment_times@, method);
        let mut i: usize = 0;
        while i < n
            invariant
                i <= n,
                n == before.segments.len(),
                target == before.update_segment_bests(segment_times@, method),
                self@.segments.len() == n,
                (RunView { segments: before.segments, ..self@ }) == before,
                forall|j: int|
                    0 <= j < n ==> #[trigger] self@.segments[j] == if j < i {
                        target.segments[j]
                    } else {
                        before.segments[j]
                    },
            decreases n - i,
        {
            if i < segment_times.len() {
                if let Some(time) = segment_times[i] {
                    self.update_segment_best(i, method, time);
                }
            }
            i += 1;
        }
        assert(self@.segments =~= target.segments);
    }

    /// Whether an attempt with these split times beats the personal best
    /// under `method`.
    pub fn is_beaten_by(&self, split_times: &Vec<Option<TimeSpan>>, method: TimingMethod) -> (r: bool)
        ensures
            r == self@.is_beaten_by(split_times@, method),
    {
        let n = self.segments.len();
        if n == 0 || split_times.len() != n {
            return false;
        }
        match split_times[n - 1] {
            Some(time) => match self.segments[n - 1].split_time(method) {
                None => true,
                Some(best) => time.nanos < best.nanos,
            },
            None => false,
        }
    }

    /// Makes the split times of an attempt the personal best under `method`:
    /// every segment takes the split time at its place.
    pub fn commit_personal_best(&mut self, split_times: &Vec<Option<TimeSpan>>, method: TimingMethod)
        ensures
            final(self)@ == old(self)@.commit_personal_best(split_times@, method),
    {
        replace_split_times(&mut self.segments, split_times, method);
        assert(self@.segments =~= old(self)@.commit_personal_best(split_times@, method).segments);
    }

    /// Adds `entry` to the history and counts the attempt.
    pub fn append_history(&mut self, entry: Attempt)
        ensures
            final(self)@ == old(self)@.append_history(entry@),
    {
        self.attempt_history.push(entry);
        if self.attempt_count < u32::MAX {
            self.attempt_count = self.attempt_count + 1;
        }
        assert(self@.attempt_history =~= old(self)@.attempt_history.push(entry@));
    }
}

/// The place of the first comparison called `name`.
fn find_by_name(comparisons: &Vec<CustomComparison>, name: &String) -> (r: Option<usize>)
    ensures
        match r {
            Some(i) => {
                &&& i < comparisons@.len()
                &&& views(comparisons@)[i as int].name == name@
                &&& forall|j: int| 0 <= j < i ==> (#[trigger] views(comparisons@)[j]).name != name@
            },
            None => forall|j: int|
                0 <= j < comparisons@.len() ==> (#[trigger] views(comparisons@)[j]).name != name@,
        },
{
    let ghost all = views(comparisons@);
    let mut i: usize = 0;
    while i < comparisons.len()
        invariant
            i <= comparisons@.len(),
            all == views(comparisons@),
            forall|j: int| 0 <= j < i ==> (#[trigger] all[j]).name != name@,
        decreases comparisons@.len() - i,
    {
        assert(all[i as int] == comparisons@[i as int]@);
        if comparisons[i].name == *name {
            return Some(i);
        }
        i += 1;
    }
    None
}

/// Whether the names set the comparisons apart from each other and from the
/// built-in comparisons.
fn names_are_distinct(comparisons: &Vec<CustomComparison>) -> (r: bool)
    ensures
        r == names_set_apart(views(comparisons@)),
{
    let ghost all = views(comparisons@);
    let mut i: usize = 0;
    while i < comparisons.len()
        invariant
            i <= comparisons@.len(),
            all == views(comparisons@),
            forall|k: int| 0 <= k < i ==> !is_builtin_name((#[trigger] all[k]).name),
            forall|k: int, l: int|
                0 <= k < l < i ==> (#[trigger] all[k]).name != (#[trigger] all[l]).name,
        decreases comparisons@.len() - i,
    {
        assert(all[i as int] == comparisons@[i as int]@);
        if BuiltinComparison::from_name(&comparisons[i].name).is_some() {
            assert(is_builtin_name(all[i as int].name));
            return false;
        }
        let mut j: usize = 0;
        while j < i
            invariant
                j <= i,
                i < comparisons@.len(),
                all == views(comparisons@),
                forall|k: int| 0 <= k < j ==> (#[trigger] all[k]).name != all[i as int].name,
            decreases i - j,
        {
            assert(all[i as int] == comparisons@[i as int]@);
            assert(all[j as int] == comparisons@[j as int]@);
            if comparisons[j].name == comparisons[i].name {
                assert(all[j as int].name == all[i as int].name);
                return false;
            }
            j += 1;
        }
        i += 1;
    }
    true
}

impl Clone for Run {
    fn clone(&self) -> (r: Run)
        ensures
            r@ == self@,
    {
        let r = Run {
            game_icon: self.game_icon.clone(),
            game_name: self.game_name.clone(),
            category_name: self.category_name.clone(),
            segments: self.segments.clone(),
            attempt_count: self.attempt_count,
            attempt_history: self.attempt_history.clone(),
            custom_comparisons: self.custom_comparisons.clone(),
        };
        assert(r@.segments =~= self@.segments);
        assert(r@.attempt_history =~= self@.attempt_history);
        assert(r@.custom_comparisons =~= self@.custom_comparisons);
        r
    }
}

} // verus!
