//! The attempt timer: the state machine that drives one attempt after
//! another at a run.

use crate::comparison::selection::{
    is_known, lemma_position_of_name, lemma_steps_stay_in_run, next_name, previous_name,
};
use crate::comparison::{
    comparison_times, generate, has_comparison, next_comparison_name, previous_comparison_name,
    BuiltinComparison,
};
use crate::run::codec::{export, export_of, is_exportable};
use crate::run::{
    next_count, segment_times_from_splits, segment_times_of, time_at, Attempt, AttemptView, Run,
    RunView,
};
use crate::timing::{TimeSpan, TimeStamp, TimerPhase, TimingMethod};
use vstd::prelude::*;

verus! {

/// A sequence of `n` times of which none is recorded.
pub open spec fn no_times(n: nat) -> Seq<Option<TimeSpan>> {
    Seq::new(n, |i: int| None)
}

/// A command to the timer. Commands that read the clock carry the reading.
#[derive(Clone, Copy, Debug, PartialEq, Eq)]
pub enum Command {
    Start(TimeStamp),
    Split(TimeStamp),
    SkipSplit,
    UndoSplit,
    Pause(TimeStamp),
    Reset(bool),
    SetTimingMethod(TimingMethod),
    SwitchTimingMethod,
    NextComparison,
    PreviousComparison,
}

impl Command {
    /// Whether the command acts on the attempt: it is neither `Start` nor
    /// one of the commands that select a timing method or a comparison.
    pub open spec fn acts_on_open_attempt(self) -> bool {
        match self {
            Command::Split(_) => true,
            Command::SkipSplit => true,
            Command::UndoSplit => true,
            Command::Pause(_) => true,
            Command::Reset(_) => true,
            _ => false,
        }
    }
}

/// What a `Timer` stands for in contracts.
pub struct TimerView {
    /// The run that the timer owns.
    pub run: RunView,
    pub phase: TimerPhase,
    /// The place of the segment that the next split ends. It equals the
    /// number of segments once the attempt has ended.
    pub current_split_index: int,
    /// The clock reading at which the open attempt was started.
    pub attempt_started_at: Option<TimeStamp>,
    /// The clock reading at which the last segment was split.
    pub attempt_ended_at: Option<TimeStamp>,
    /// The clock reading at which the running pause began.
    pub paused_at: Option<TimeStamp>,
    /// The time that the open attempt has spent in pauses that are over.
    pub accumulated_pause_duration: TimeSpan,
    pub current_timing_method: TimingMethod,
    /// The name of the comparison that is selected.
    pub current_comparison: Seq<char>,
    /// The split times of the open attempt, one place per segment.
    pub live_split_times: Seq<Option<TimeSpan>>,
    /// The number of attempts started so far.
    pub started_attempts: u32,
}

impl TimerView {
    /// The timer that has just been given `run`.
    pub open spec fn fresh(run: RunView) -> TimerView {
        TimerView {
            run,
            phase: TimerPhase::NotStarted,
            current_split_index: 0,
            attempt_started_at: None,
            attempt_ended_at: None,
            paused_at: None,
            accumulated_pause_duration: TimeSpan::of(0),
            current_timing_method: TimingMethod::RealTime,
            current_comparison: BuiltinComparison::PersonalBest.spec_name(),
            live_split_times: no_times(run.segments.len()),
            started_attempts: 0,
        }
    }

    /// The number of segments of the run.
    pub open spec fn segment_count(self) -> int {
        self.run.segments.len() as int
    }

    /// What every timer satisfies, whatever commands it was given.
    pub open spec fn wf(self) -> bool {
        &&& self.run.wf()
        &&& has_comparison(self.run, self.current_comparison)
        &&& self.live_split_times.len() == self.segment_count()
        &&& 0 <= self.current_split_index <= self.segment_count()
        &&& forall|i: int|
            self.current_split_index <= i < self.segment_count() ==> (
            #[trigger] self.live_split_times[i]).is_none()
        &&& match self.phase {
            TimerPhase::NotStarted => {
                &&& self.current_split_index == 0
                &&& self.attempt_started_at.is_none()
                &&& self.attempt_ended_at.is_none()
                &&& self.paused_at.is_none()
                &&& self.accumulated_pause_duration == TimeSpan::of(0)
            },
            TimerPhase::Running => {
                &&& self.current_split_index < self.segment_count()
                &&& self.attempt_started_at.is_some()
                &&& self.attempt_ended_at.is_none()
                &&& self.paused_at.is_none()
            },
            TimerPhase::Paused => {
                &&& self.current_split_index < self.segment_count()
                &&& self.attempt_started_at.is_some()
                &&& self.attempt_ended_at.is_none()
                &&& self.paused_at.is_some()
            },
            TimerPhase::Ended => {
                &&& 0 < self.segment_count()
                &&& self.current_split_index == self.segment_count()
                &&& self.live_split_times[self.segment_count() - 1].is_some()
                &&& self.attempt_started_at.is_some()
                &&& self.attempt_ended_at.is_some()
                &&& self.paused_at.is_none()
            },
        }
    }

    /// The time that the open attempt has taken at the clock reading `now`,
    /// the pauses that are over left out.
    pub open spec fn attempt_time(self, now: TimeStamp) -> TimeSpan {
        match self.attempt_started_at {
            Some(started) => now.elapsed_since(started).minus(self.accumulated_pause_duration),
            None => TimeSpan::of(0),
        }
    }

    /// The time that the attempt shows at the clock reading `now`: none
    /// before the start, the frozen time during a pause and after the end.
    pub open spec fn current_time(self, now: TimeStamp) -> Option<TimeSpan> {
        match self.phase {
            TimerPhase::NotStarted => None,
            TimerPhase::Running => Some(self.attempt_time(now)),
            TimerPhase::Paused => match self.paused_at {
                Some(paused) => Some(self.attempt_time(paused)),
                None => None,
            },
            TimerPhase::Ended => match self.attempt_ended_at {
                Some(ended) => Some(self.attempt_time(ended)),
                None => None,
            },
        }
    }

    /// The split times that the selected comparison holds against the
    /// attempt, under the selected timing method.
    pub open spec fn comparison_times(self) -> Seq<Option<TimeSpan>> {
        comparison_times(self.run, self.current_comparison, self.current_timing_method)
    }

    /// How far the attempt stood from the selected comparison at the split
    /// of segment `i`: the live split time less the time of the comparison,
    /// where both are known. It is negative where the attempt was ahead.
    pub open spec fn delta(self, i: int) -> Option<TimeSpan> {
        match (time_at(self.live_split_times, i), time_at(self.comparison_times(), i)) {
            (Some(live), Some(reference)) => Some(live.minus(reference)),
            _ => None,
        }
    }

    /// Opens an attempt. Only a timer that is not started, over a run with
    /// at least one segment, can start.
    pub open spec fn start(self, now: TimeStamp) -> TimerView {
        if self.phase == TimerPhase::NotStarted && self.segment_count() > 0 {
            TimerView {
                phase: TimerPhase::Running,
                current_split_index: 0,
                attempt_started_at: Some(now),
                attempt_ended_at: None,
                paused_at: None,
                accumulated_pause_duration: TimeSpan::of(0),
                live_split_times: no_times(self.run.segments.len()),
                started_attempts: next_count(self.started_attempts),
                ..self
            }
        } else {
            self
        }
    }

    /// Ends the current segment at the clock reading `now`. Only a running
    /// timer splits. The split of the last segment ends the attempt.
    pub open spec fn split(self, now: TimeStamp) -> TimerView {
        if self.phase == TimerPhase::Running {
            let ends = self.current_split_index + 1 == self.segment_count();
            TimerView {
                phase: if ends {
                    TimerPhase::Ended
                } else {
                    TimerPhase::Running
                },
                current_split_index: self.current_split_index + 1,
                attempt_ended_at: if ends {
                    Some(now)
                } else {
                    None
                },
                live_split_times: self.live_split_times.update(
                    self.current_split_index,
                    Some(self.attempt_time(now)),
                ),
                ..self
            }
        } else {
            self
        }
    }

    /// Passes over the current segment without a time. Only a running timer
    /// skips, and never the last segment.
    pub open spec fn skip_split(self) -> TimerView {
        if self.phase == TimerPhase::Running && self.current_split_index + 1
            < self.segment_count() {
            TimerView {
                current_split_index: self.current_split_index + 1,
                live_split_times: self.live_split_times.update(self.current_split_index, None),
                ..self
            }
        } else {
            self
        }
    }

    /// Goes back to the segment before the current one and forgets its
    /// split time. Only a running or ended timer that is past the first
    /// segment undoes; an ended one runs again.
    pub open spec fn undo_split(self) -> TimerView {
        if (self.phase == TimerPhase::Running || self.phase == TimerPhase::Ended)
            && self.current_split_index > 0 {
            TimerView {
                phase: TimerPhase::Running,
                current_split_index: self.current_split_index - 1,
                attempt_ended_at: None,
                live_split_times: self.live_split_times.update(self.current_split_index - 1, None),
                ..self
            }
        } else {
            self
        }
    }

    /// Holds a running timer, or lets a paused one run again. The time
    /// spent in the pause is added to the pauses that are over.
    pub open spec fn pause(self, now: TimeStamp) -> TimerView {
        match self.phase {
            TimerPhase::Running => TimerView {
                phase: TimerPhase::Paused,
                paused_at: Some(now),
                ..self
            },
            TimerPhase::Paused => match self.paused_at {
                Some(paused) => TimerView {
                    phase: TimerPhase::Running,
                    paused_at: None,
                    accumulated_pause_duration: self.accumulated_pause_duration.plus(
                        now.elapsed_since(paused),
                    ),
                    ..self
                },
                None => self,
            },
            _ => self,
        }
    }

    /// What the history keeps of the open attempt.
    pub open spec fn history_entry(self) -> AttemptView {
        AttemptView {
            index: next_count(self.run.attempt_count),
            started: match self.attempt_started_at {
                Some(started) => started,
                None => TimeStamp { nanos: 0 },
            },
            ended: self.attempt_ended_at,
            segment_times: segment_times_of(self.live_split_times),
            timing_method: self.current_timing_method,
        }
    }

    /// The run after the open attempt was made part of it: the segment
    /// times of the attempt are offered as best segment times, the split
    /// times become the personal best if the attempt has ended and beats it,
    /// and the attempt enters the history.
    pub open spec fn committed_run(self) -> RunView {
        let method = self.current_timing_method;
        let with_bests = self.run.update_segment_bests(
            segment_times_of(self.live_split_times),
            method,
        );
        let with_personal_best = if self.phase == TimerPhase::Ended && self.run.is_beaten_by(
            self.live_split_times,
            method,
        ) {
            with_bests.commit_personal_best(self.live_split_times, method)
        } else {
            with_bests
        };
        with_personal_best.append_history(self.history_entry())
    }

    /// Closes the open attempt. With `update_splits` the attempt is made
    /// part of the run, whether it has ended or was given up on the way;
    /// without, it leaves no trace in the run. A timer that is not started
    /// stays as it is.
    pub open spec fn reset(self, update_splits: bool) -> TimerView {
        if self.phase != TimerPhase::NotStarted {
            TimerView {
                run: if update_splits {
                    self.committed_run()
                } else {
                    self.run
                },
                phase: TimerPhase::NotStarted,
                current_split_index: 0,
                attempt_started_at: None,
                attempt_ended_at: None,
                paused_at: None,
                accumulated_pause_duration: TimeSpan::of(0),
                live_split_times: no_times(self.run.segments.len()),
                ..self
            }
        } else {
            self
        }
    }

    /// Selects `method`. Times that are already recorded stay as they are.
    pub open spec fn set_current_timing_method(self, method: TimingMethod) -> TimerView {
        TimerView { current_timing_method: method, ..self }
    }

    /// Selects the other timing method.
    pub open spec fn switch_timing_method(self) -> TimerView {
        self.set_current_timing_method(self.current_timing_method.other())
    }

    /// Selects the comparison that follows the selected one.
    pub open spec fn switch_to_next_comparison(self) -> TimerView {
        TimerView {
            current_comparison: next_comparison_name(self.run, self.current_comparison),
            ..self
        }
    }

    /// Selects the comparison that comes before the selected one.
    pub open spec fn switch_to_previous_comparison(self) -> TimerView {
        TimerView {
            current_comparison: previous_comparison_name(self.run, self.current_comparison),
            ..self
        }
    }

    /// The timer after `command`.
    pub open spec fn apply(self, command: Command) -> TimerView {
        match command {
            Command::Start(now) => self.start(now),
            Command::Split(now) => self.split(now),
            Command::SkipSplit => self.skip_split(),
            Command::UndoSplit => self.undo_split(),
            Command::Pause(now) => self.pause(now),
            Command::Reset(update_splits) => self.reset(update_splits),
            Command::SetTimingMethod(method) => self.set_current_timing_method(method),
            Command::SwitchTimingMethod => self.switch_timing_method(),
            Command::NextComparison => self.switch_to_next_comparison(),
            Command::PreviousComparison => self.switch_to_previous_comparison(),
        }
    }

    /// The timer after each of `commands`, in order.
    pub open spec fn apply_all(self, commands: Seq<Command>) -> TimerView
        decreases commands.len(),
    {
        if commands.len() == 0 {
            self
        } else {
            self.apply_all(commands.drop_last()).apply(commands.last())
        }
    }
}

/// A vector of `n` times of which none is recorded.
fn unrecorded_times(n: usize) -> (r: Vec<Option<TimeSpan>>)
    ensures
        r@ == no_times(n as nat),
{
    let mut times: Vec<Option<TimeSpan>> = Vec::new();
    let mut i: usize = 0;
    while i < n
        invariant
            i <= n,
            times@.len() == i,
            forall|j: int| 0 <= j < i ==> (#[trigger] times@[j]).is_none(),
        decreases n - i,
    {
        times.push(None);
        i += 1;
    }
    assert(times@ =~= no_times(n as nat));
    times
}

/// The attempt timer. It owns one run, takes the commands of the caller and
/// keeps the times of the attempt that is open.
///
/// Every timer that this library hands out is well formed, and every command
/// keeps it so.
#[derive(Debug)]
pub struct Timer {
    run: Run,
    phase: TimerPhase,
    current_split_index: usize,
    attempt_started_at: Option<TimeStamp>,
    attempt_ended_at: Option<TimeStamp>,
    paused_at: Option<TimeStamp>,
    accumulated_pause_duration: TimeSpan,
    current_timing_method: TimingMethod,
    current_comparison: String,
    live_split_times: Vec<Option<TimeSpan>>,
    started_attempts: u32,
}

impl View for Timer {
    type V = TimerView;

    closed spec fn view(&self) -> TimerView {
        TimerView {
            run: self.run@,
            phase: self.phase,
            current_split_index: self.current_split_index as int,
            attempt_started_at: self.attempt_started_at,
            attempt_ended_at: self.attempt_ended_at,
            paused_at: self.paused_at,
            accumulated_pause_duration: self.accumulated_pause_duration,
            current_timing_method: self.current_timing_method,
            current_comparison: self.current_comparison@,
            live_split_times: self.live_split_times@,
            started_attempts: self.started_attempts,
        }
    }
}

impl Timer {
    /// A timer for `run`, not started, on real time and on the personal
    /// best.
    pub fn new(run: Run) -> (r: Timer)
        requires
            run@.wf(),
        ensures
            r@ == TimerView::fresh(run@),
            r@.wf(),
    {
        let live_split_times = unrecorded_times(run.len());
        let current_comparison = BuiltinComparison::PersonalBest.name();
        proof {
            lemma_position_of_name(run@, 0);
        }
        Timer {
            run,
            phase: TimerPhase::NotStarted,
            current_split_index: 0,
            attempt_started_at: None,
            attempt_ended_at: None,
            paused_at: None,
            accumulated_pause_duration: TimeSpan::zero(),
            current_timing_method: TimingMethod::RealTime,
            current_comparison,
            live_split_times,
            started_attempts: 0,
        }
    }

    /// Whether the timer is well formed. Every timer that this library
    /// hands out is, so this is a check for callers that want to make sure.
    pub fn is_well_formed(&self) -> (r: bool)
        ensures
            r == self@.wf(),
    {
        if !self.run.is_well_formed() {
            return false;
        }
        let count = self.run.len();
        if !is_known(&self.run, &self.current_comparison) || self.live_split_times.len() != count
            || self.current_split_index > count {
            return false;
        }
        let mut i: usize = self.current_split_index;
        while i < count
            invariant
                self.current_split_index <= i <= count,
                count == self.live_split_times@.len(),
                forall|j: int|
                    self.current_split_index <= j < i ==> (
                    #[trigger] self.live_split_times@[j]).is_none(),
            decreases count - i,
        {
            if self.live_split_times[i].is_some() {
                return false;
            }
            i += 1;
        }
        match self.phase {
            TimerPhase::NotStarted => self.current_split_index == 0
                && self.attempt_started_at.is_none() && self.attempt_ended_at.is_none()
                && self.paused_at.is_none() && self.accumulated_pause_duration.nanos == 0,
            TimerPhase::Running => self.current_split_index < count
                && self.attempt_started_at.is_some() && self.attempt_ended_at.is_none()
                && self.paused_at.is_none(),
            TimerPhase::Paused => self.current_split_index < count
                && self.attempt_started_at.is_some() && self.attempt_ended_at.is_none()
                && self.paused_at.is_some(),
            TimerPhase::Ended => count > 0 && self.current_split_index == count
                && self.live_split_times[count - 1].is_some() && self.attempt_started_at.is_some()
                && self.attempt_ended_at.is_some() && self.paused_at.is_none(),
        }
    }

    /// Gives up the timer for the run that it owns. An attempt that is open
    /// is lost.
    pub fn into_run(self) -> (r: Run)
        ensures
            r@ == self@.run,
    {
        self.run
    }

    /// The run that the timer owns.
    pub fn run(&self) -> (r: &Run)
        ensures
            r@ == self@.run,
    {
        &self.run
    }

    /// A copy of the run that shares nothing with the timer.
    pub fn clone_run(&self) -> (r: Run)
        ensures
            r@ == self@.run,
    {
        self.run.clone()
    }

    /// The run that the timer owns, written out in the interchange format.
    pub fn export_run(&self) -> (r: Vec<u8>)
        ensures
            r@ == export_of(self@.run),
            is_exportable(self@.run),
    {
        export(&self.run)
    }

    pub fn current_phase(&self) -> (r: TimerPhase)
        ensures
            r == self@.phase,
    {
        self.phase
    }

    pub fn current_split_index(&self) -> (r: usize)
        ensures
            r == self@.current_split_index,
    {
        self.current_split_index
    }

    pub fn current_timing_method(&self) -> (r: TimingMethod)
        ensures
            r == self@.current_timing_method,
    {
        self.current_timing_method
    }

    /// The name of the comparison that is selected.
    pub fn current_comparison(&self) -> (r: &String)
        ensures
            r@ == self@.current_comparison,
    {
        &self.current_comparison
    }

    /// The clock reading at which the open attempt was started.
    pub fn attempt_started_at(&self) -> (r: Option<TimeStamp>)
        ensures
            r == self@.attempt_started_at,
    {
        self.attempt_started_at
    }

    /// The time that the open attempt has spent in pauses that are over.
    pub fn accumulated_pause_duration(&self) -> (r: TimeSpan)
        ensures
            r == self@.accumulated_pause_duration,
    {
        self.accumulated_pause_duration
    }

    /// The number of attempts started so far.
    pub fn started_attempts(&self) -> (r: u32)
        ensures
            r == self@.started_attempts,
    {
        self.started_attempts
    }

    /// The split times of the open attempt, one place per segment.
    pub fn live_split_times(&self) -> (r: &Vec<Option<TimeSpan>>)
        ensures
            r@ == self@.live_split_times,
    {
        &self.live_split_times
    }

    /// The time that the attempt shows at the clock reading `now`.
    pub fn current_time(&self, now: TimeStamp) -> (r: Option<TimeSpan>)
        ensures
            r == self@.current_time(now),
    {
        let reading = match self.phase {
            TimerPhase::NotStarted => {
                return None;
            },
            TimerPhase::Running => now,
            TimerPhase::Paused => match self.paused_at {
                Some(paused) => paused,
                None => {
                    return None;
                },
            },
            TimerPhase::Ended => match self.attempt_ended_at {
                Some(ended) => ended,
                None => {
                    return None;
                },
            },
        };
        Some(self.attempt_time(reading))
    }

    /// The split times that the selected comparison holds against the
    /// attempt, under the selected timing method.
    pub fn comparison_times(&self) -> (r: Vec<Option<TimeSpan>>)
        requires
            self@.wf(),
        ensures
            r@ == self@.comparison_times(),
    {
        generate(&self.run, &self.current_comparison, self.current_timing_method)
    }

    /// How far the attempt stood from the selected comparison at the split
    /// of segment `index`.
    pub fn delta(&self, index: usize) -> (r: Option<TimeSpan>)
        requires
            self@.wf(),
        ensures
            r == self@.delta(index as int),
    {
        if index >= self.live_split_times.len() {
            return None;
        }
        let reference = self.comparison_times();
        match (self.live_split_times[index], reference[index]) {
            (Some(live), Some(time)) => Some(live - time),
            _ => None,
        }
    }

    /// The time that the open attempt has taken at the clock reading `now`.
    fn attempt_time(&self, now: TimeStamp) -> (r: TimeSpan)
        ensures
            r == self@.attempt_time(now),
    {
        match self.attempt_started_at {
            Some(started) => now.since(started) - self.accumulated_pause_duration,
            None => TimeSpan::zero(),
        }
    }

    /// Opens an attempt at the clock reading `now`.
    pub fn start(&mut self, now: TimeStamp)
        requires
            old(self)@.wf(),
        ensures
            final(self)@ == old(self)@.start(now),
            final(self)@.wf(),
    {
        if self.phase == TimerPhase::NotStarted && self.run.len() > 0 {
            self.phase = TimerPhase::Running;
            self.current_split_index = 0;
            self.attempt_started_at = Some(now);
            self.attempt_ended_at = None;
            self.paused_at = None;
            self.accumulated_pause_duration = TimeSpan::zero();
            self.live_split_times = unrecorded_times(self.run.len());
            if self.started_attempts < u32::MAX {
                self.started_attempts = self.started_attempts + 1;
            }
        }
    }

    /// Ends the current segment at the clock reading `now`.
    pub fn split(&mut self, now: TimeStamp)
        requires
            old(self)@.wf(),
        ensures
            final(self)@ == old(self)@.split(now),
            final(self)@.wf(),
    {
        let count = self.run.len();
        if self.phase == TimerPhase::Running {
            let time = self.attempt_time(now);
            self.live_split_times.set(self.current_split_index, Some(time));
            self.current_split_index = self.current_split_index + 1;
            if self.current_split_index == count {
                self.phase = TimerPhase::Ended;
                self.attempt_ended_at = Some(now);
            }
        }
    }

    /// Passes over the current segment without a time.
    pub fn skip_split(&mut self)
        requires
            old(self)@.wf(),
        ensures
            final(self)@ == old(self)@.skip_split(),
            final(self)@.wf(),
    {
        let count = self.run.len();
        if self.phase == TimerPhase::Running && self.current_split_index + 1 < count {
            self.live_split_times.set(self.current_split_index, None);
            self.current_split_index = self.current_split_index + 1;
        }
    }

    /// Goes back to the segment before the current one and forgets its
    /// split time.
    pub fn undo_split(&mut self)
        requires
            old(self)@.wf(),
        ensures
            final(self)@ == old(self)@.undo_split(),
            final(self)@.wf(),
    {
        if (self.phase == TimerPhase::Running || self.phase == TimerPhase::Ended)
            && self.current_split_index > 0 {
            self.phase = TimerPhase::Running;
            self.current_split_index = self.current_split_index - 1;
            self.attempt_ended_at = None;
            self.live_split_times.set(self.current_split_index, None);
        }
    }

    /// Holds a running timer, or lets a paused one run again.
    pub fn pause(&mut self, now: TimeStamp)
        requires
            old(self)@.wf(),
        ensures
            final(self)@ == old(self)@.pause(now),
            final(self)@.wf(),
    {
        match self.phase {
            TimerPhase::Running => {
                self.phase = TimerPhase::Paused;
                self.paused_at = Some(now);
            },
            TimerPhase::Paused => {
                if let Some(paused) = self.paused_at {
                    self.phase = TimerPhase::Running;
                    self.paused_at = None;
                    self.accumulated_pause_duration = self.accumulated_pause_duration + now.since(
                        paused,
                    );
                }
            },
            _ => {},
        }
    }

    /// Closes the open attempt. With `update_splits` the attempt is made
    /// part of the run; without, it leaves no trace in the run.
    pub fn reset(&mut self, update_splits: bool)
        requires
            old(self)@.wf(),
        ensures
            final(self)@ == old(self)@.reset(update_splits),
            final(self)@.wf(),
    {
        if self.phase != TimerPhase::NotStarted {
            if update_splits {
                self.commit_attempt();
            }
            self.phase = TimerPhase::NotStarted;
            self.current_split_index = 0;
            self.attempt_started_at = None;
            self.attempt_ended_at = None;
            self.paused_at = None;
            self.accumulated_pause_duration = TimeSpan::zero();
            self.live_split_times = unrecorded_times(self.run.len());
        }
    }

    /// Makes the open attempt part of the run.
    fn commit_attempt(&mut self)
        requires
            old(self)@.wf(),
            old(self)@.phase != TimerPhase::NotStarted,
        ensures
            final(self)@ == (TimerView { run: old(self)@.committed_run(), ..old(self)@ }),
    {
        let method = self.current_timing_method;
        let segment_times = segment_times_from_splits(&self.live_split_times);
        let beaten = self.phase == TimerPhase::Ended && self.run.is_beaten_by(
            &self.live_split_times,
            method,
        );
        let index = if self.run.attempt_count() < u32::MAX {
            self.run.attempt_count() + 1
        } else {
            u32::MAX
        };
        let started = match self.attempt_started_at {
            Some(started) => started,
            None => TimeStamp::from_nanos(0),
        };
        self.run.update_segment_bests(&segment_times, method);
        if beaten {
            self.run.commit_personal_best(&self.live_split_times, method);
        }
        let entry = Attempt {
            index,
            started,
            ended: self.attempt_ended_at,
            segment_times,
            timing_method: method,
        };
        self.run.append_history(entry);
    }

    /// Selects `method`. Times that are already recorded stay as they are.
    pub fn set_current_timing_method(&mut self, method: TimingMethod)
        requires
            old(self)@.wf(),
        ensures
            final(self)@ == old(self)@.set_current_timing_method(method),
            final(self)@.wf(),
    {
        self.current_timing_method = method;
    }

    /// Selects the other timing method.
    pub fn switch_timing_method(&mut self)
        requires
            old(self)@.wf(),
        ensures
            final(self)@ == old(self)@.switch_timing_method(),
            final(self)@.wf(),
    {
        self.current_timing_method = self.current_timing_method.toggled();
    }

    /// Selects the comparison that follows the selected one.
    pub fn switch_to_next_comparison(&mut self)
        requires
            old(self)@.wf(),
        ensures
            final(self)@ == old(self)@.switch_to_next_comparison(),
            final(self)@.wf(),
    {
        proof {
            lemma_steps_stay_in_run(self.run@, self.current_comparison@);
        }
        self.current_comparison = next_name(&self.run, &self.current_comparison);
    }

    /// Selects the comparison that comes before the selected one.
    pub fn switch_to_previous_comparison(&mut self)
        requires
            old(self)@.wf(),
        ensures
            final(self)@ == old(self)@.switch_to_previous_comparison(),
            final(self)@.wf(),
    {
        proof {
            lemma_steps_stay_in_run(self.run@, self.current_comparison@);
        }
        self.current_comparison = previous_name(&self.run, &self.current_comparison);
    }

    /// Carries out `command`.
    pub fn apply(&mut self, command: Command)
        requires
            old(self)@.wf(),
        ensures
            final(self)@ == old(self)@.apply(command),
            final(self)@.wf(),
    {
        match command {
            Command::Start(now) => self.start(now),
            Command::Split(now) => self.split(now),
            Command::SkipSplit => self.skip_split(),
            Command::UndoSplit => self.undo_split(),
            Command::Pause(now) => self.pause(now),
            Command::Reset(update_splits) => self.reset(update_splits),
            Command::SetTimingMethod(method) => self.set_current_timing_method(method),
            Command::SwitchTimingMethod => self.switch_timing_method(),
            Command::NextComparison => self.switch_to_next_comparison(),
            Command::PreviousComparison => self.switch_to_previous_comparison(),
        }
    }
}

} // verus!
