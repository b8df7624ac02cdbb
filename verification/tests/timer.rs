use livesplit_core::{
    Command, Run, Segment, TimeSpan, TimeStamp, Timer, TimerPhase, TimingMethod,
};

fn at(seconds: u64) -> TimeStamp {
    TimeStamp::from_nanos(seconds * 1_000_000_000)
}

fn secs(seconds: i64) -> TimeSpan {
    TimeSpan::from_seconds(seconds)
}

fn run_of(names: &[&str]) -> Run {
    let mut run = Run::new();
    run.set_game_name("Game".to_string());
    run.set_category_name("Any%".to_string());
    for name in names {
        run.push_segment(Segment::new(name.to_string()));
    }
    run
}

fn three_segments() -> Run {
    run_of(&["One", "Two", "Three"])
}

fn split_times(run: &Run, method: TimingMethod) -> Vec<Option<TimeSpan>> {
    run.segments().iter().map(|s| s.split_time(method)).collect()
}

fn best_segment_times(run: &Run, method: TimingMethod) -> Vec<Option<TimeSpan>> {
    run.segments().iter().map(|s| s.best_segment_time(method)).collect()
}

/// Runs one complete attempt whose splits fall at the given seconds after
/// the start, and commits it.
fn complete_attempt(timer: &mut Timer, start: u64, splits: &[u64]) {
    timer.start(at(start));
    for split in splits {
        timer.split(at(start + split));
    }
    timer.reset(true);
}

#[test]
fn new_timer_is_not_started() {
    let timer = Timer::new(three_segments());
    assert_eq!(timer.current_phase(), TimerPhase::NotStarted);
    assert_eq!(timer.current_split_index(), 0);
    assert_eq!(timer.current_timing_method(), TimingMethod::RealTime);
    assert_eq!(timer.current_comparison(), "Personal Best");
    assert_eq!(timer.live_split_times(), &vec![None, None, None]);
    assert_eq!(timer.attempt_started_at(), None);
    assert_eq!(timer.started_attempts(), 0);
    assert_eq!(timer.current_time(at(5)), None);
}

#[test]
fn commands_before_start_change_nothing() {
    let mut timer = Timer::new(three_segments());
    timer.split(at(1));
    timer.skip_split();
    timer.undo_split();
    timer.pause(at(2));
    timer.reset(true);
    timer.reset(false);
    assert_eq!(timer.current_phase(), TimerPhase::NotStarted);
    assert_eq!(timer.current_split_index(), 0);
    assert_eq!(timer.live_split_times(), &vec![None, None, None]);
    assert_eq!(timer.accumulated_pause_duration(), TimeSpan::zero());
    assert_eq!(timer.run().attempt_count(), 0);
    assert!(timer.run().attempt_history().is_empty());
    assert_eq!(split_times(timer.run(), TimingMethod::RealTime), vec![None, None, None]);
    assert_eq!(best_segment_times(timer.run(), TimingMethod::RealTime), vec![None, None, None]);
}

#[test]
fn start_on_a_run_without_segments_is_ignored() {
    let mut timer = Timer::new(Run::new());
    timer.start(at(1));
    assert_eq!(timer.current_phase(), TimerPhase::NotStarted);
    assert_eq!(timer.started_attempts(), 0);
}

#[test]
fn start_opens_an_attempt() {
    let mut timer = Timer::new(three_segments());
    timer.start(at(7));
    assert_eq!(timer.current_phase(), TimerPhase::Running);
    assert_eq!(timer.current_split_index(), 0);
    assert_eq!(timer.attempt_started_at(), Some(at(7)));
    assert_eq!(timer.started_attempts(), 1);
    assert_eq!(timer.current_time(at(10)), Some(secs(3)));
    // A second start is out of place and changes nothing.
    timer.start(at(9));
    assert_eq!(timer.attempt_started_at(), Some(at(7)));
    assert_eq!(timer.started_attempts(), 1);
}

#[test]
fn splits_run_through_to_the_end() {
    let mut timer = Timer::new(three_segments());
    timer.start(at(0));
    assert_eq!(timer.current_split_index(), 0);
    timer.split(at(10));
    assert_eq!(timer.current_phase(), TimerPhase::Running);
    assert_eq!(timer.current_split_index(), 1);
    timer.split(at(25));
    assert_eq!(timer.current_phase(), TimerPhase::Running);
    assert_eq!(timer.current_split_index(), 2);
    timer.split(at(40));
    assert_eq!(timer.current_phase(), TimerPhase::Ended);
    assert_eq!(timer.current_split_index(), 3);
    assert_eq!(
        timer.live_split_times(),
        &vec![Some(secs(10)), Some(secs(25)), Some(secs(40))]
    );
    // A split after the end is out of place.
    timer.split(at(50));
    assert_eq!(timer.current_split_index(), 3);
    assert_eq!(timer.current_time(at(60)), Some(secs(40)));
}

#[test]
fn undo_takes_back_a_split() {
    let mut timer = Timer::new(three_segments());
    timer.start(at(0));
    timer.split(at(10));
    timer.undo_split();
    assert_eq!(timer.current_phase(), TimerPhase::Running);
    assert_eq!(timer.current_split_index(), 0);
    assert_eq!(timer.live_split_times(), &vec![None, None, None]);
    // At the first segment there is nothing to undo.
    timer.undo_split();
    assert_eq!(timer.current_split_index(), 0);
    assert_eq!(timer.current_phase(), TimerPhase::Running);
}

#[test]
fn rounds_of_split_and_undo_lead_back_to_the_start() {
    let mut timer = Timer::new(three_segments());
    timer.start(at(3));
    for round in 0..3 {
        timer.split(at(10 + round));
        timer.undo_split();
    }
    assert_eq!(timer.current_phase(), TimerPhase::Running);
    assert_eq!(timer.current_split_index(), 0);
    assert_eq!(timer.attempt_started_at(), Some(at(3)));
    assert_eq!(timer.live_split_times(), &vec![None, None, None]);
    assert_eq!(timer.started_attempts(), 1);
}

#[test]
fn undo_after_the_end_runs_again() {
    let mut timer = Timer::new(run_of(&["Only"]));
    timer.start(at(0));
    timer.split(at(5));
    assert_eq!(timer.current_phase(), TimerPhase::Ended);
    timer.undo_split();
    assert_eq!(timer.current_phase(), TimerPhase::Running);
    assert_eq!(timer.current_split_index(), 0);
    assert_eq!(timer.live_split_times(), &vec![None]);
    assert_eq!(timer.current_time(at(9)), Some(secs(9)));
}

#[test]
fn skip_records_no_time() {
    let mut timer = Timer::new(three_segments());
    timer.start(at(0));
    timer.skip_split();
    assert_eq!(timer.current_split_index(), 1);
    assert_eq!(timer.current_phase(), TimerPhase::Running);
    assert_eq!(timer.live_split_times(), &vec![None, None, None]);
    timer.split(at(20));
    assert_eq!(timer.live_split_times(), &vec![None, Some(secs(20)), None]);
}

#[test]
fn skip_is_ignored_on_the_last_segment() {
    let mut timer = Timer::new(three_segments());
    timer.start(at(0));
    timer.split(at(10));
    // The segment before the last one can be skipped.
    timer.skip_split();
    assert_eq!(timer.current_split_index(), 2);
    // The last one cannot.
    timer.skip_split();
    assert_eq!(timer.current_split_index(), 2);
    assert_eq!(timer.current_phase(), TimerPhase::Running);
    assert_eq!(timer.live_split_times(), &vec![Some(secs(10)), None, None]);
}

#[test]
fn pause_and_resume_at_once_change_nothing() {
    let mut timer = Timer::new(three_segments());
    timer.start(at(0));
    timer.pause(at(4));
    assert_eq!(timer.current_phase(), TimerPhase::Paused);
    timer.pause(at(4));
    assert_eq!(timer.current_phase(), TimerPhase::Running);
    assert_eq!(timer.accumulated_pause_duration(), TimeSpan::zero());
}

#[test]
fn paused_time_is_left_out_of_splits() {
    let mut timer = Timer::new(three_segments());
    timer.start(at(0));
    timer.pause(at(4));
    assert_eq!(timer.current_time(at(100)), Some(secs(4)));
    // Splits, skips and undos are out of place while the timer is paused.
    timer.split(at(5));
    timer.skip_split();
    timer.undo_split();
    assert_eq!(timer.current_split_index(), 0);
    assert_eq!(timer.current_phase(), TimerPhase::Paused);
    timer.pause(at(10));
    assert_eq!(timer.accumulated_pause_duration(), secs(6));
    timer.split(at(16));
    assert_eq!(timer.live_split_times(), &vec![Some(secs(10)), None, None]);
    timer.pause(at(20));
    timer.pause(at(21));
    assert_eq!(timer.accumulated_pause_duration(), secs(7));
    timer.split(at(32));
    assert_eq!(timer.live_split_times(), &vec![Some(secs(10)), Some(secs(25)), None]);
}

#[test]
fn first_attempt_sets_every_best() {
    let mut timer = Timer::new(three_segments());
    timer.start(at(0));
    timer.split(at(10));
    timer.split(at(25));
    timer.split(at(40));
    assert_eq!(timer.current_phase(), TimerPhase::Ended);
    timer.reset(true);
    assert_eq!(timer.current_phase(), TimerPhase::NotStarted);
    let run = timer.run();
    assert_eq!(run.attempt_count(), 1);
    assert_eq!(run.attempt_history().len(), 1);
    let entry = &run.attempt_history()[0];
    assert_eq!(entry.index, 1);
    assert_eq!(entry.started, at(0));
    assert_eq!(entry.ended, Some(at(40)));
    assert_eq!(entry.timing_method, TimingMethod::RealTime);
    assert_eq!(
        entry.segment_times,
        vec![Some(secs(10)), Some(secs(15)), Some(secs(15))]
    );
    assert_eq!(
        split_times(run, TimingMethod::RealTime),
        vec![Some(secs(10)), Some(secs(25)), Some(secs(40))]
    );
    assert_eq!(
        best_segment_times(run, TimingMethod::RealTime),
        vec![Some(secs(10)), Some(secs(15)), Some(secs(15))]
    );
    // Nothing was timed under game time.
    assert_eq!(split_times(run, TimingMethod::GameTime), vec![None, None, None]);
    assert_eq!(best_segment_times(run, TimingMethod::GameTime), vec![None, None, None]);
}

#[test]
fn tied_attempt_improves_segments_but_not_the_personal_best() {
    let mut timer = Timer::new(three_segments());
    complete_attempt(&mut timer, 0, &[10, 25, 40]);
    // Segment times 9, 17 and 14: the same 40 seconds in total.
    complete_attempt(&mut timer, 100, &[9, 26, 40]);
    let run = timer.run();
    assert_eq!(run.attempt_count(), 2);
    assert_eq!(
        run.attempt_history()[1].segment_times,
        vec![Some(secs(9)), Some(secs(17)), Some(secs(14))]
    );
    assert_eq!(
        best_segment_times(run, TimingMethod::RealTime),
        vec![Some(secs(9)), Some(secs(15)), Some(secs(14))]
    );
    assert_eq!(
        split_times(run, TimingMethod::RealTime),
        vec![Some(secs(10)), Some(secs(25)), Some(secs(40))]
    );
}

#[test]
fn faster_attempt_becomes_the_personal_best() {
    let mut timer = Timer::new(three_segments());
    complete_attempt(&mut timer, 0, &[10, 25, 40]);
    // Segment times 9, 16 and 14: 39 seconds in total.
    complete_attempt(&mut timer, 100, &[9, 25, 39]);
    let run = timer.run();
    assert_eq!(
        best_segment_times(run, TimingMethod::RealTime),
        vec![Some(secs(9)), Some(secs(15)), Some(secs(14))]
    );
    assert_eq!(
        split_times(run, TimingMethod::RealTime),
        vec![Some(secs(9)), Some(secs(25)), Some(secs(39))]
    );
}

#[test]
fn slower_attempt_changes_no_best() {
    let mut timer = Timer::new(three_segments());
    complete_attempt(&mut timer, 0, &[10, 25, 40]);
    complete_attempt(&mut timer, 100, &[11, 27, 43]);
    let run = timer.run();
    assert_eq!(run.attempt_count(), 2);
    assert_eq!(
        best_segment_times(run, TimingMethod::RealTime),
        vec![Some(secs(10)), Some(secs(15)), Some(secs(15))]
    );
    assert_eq!(
        split_times(run, TimingMethod::RealTime),
        vec![Some(secs(10)), Some(secs(25)), Some(secs(40))]
    );
}

#[test]
fn cancelled_attempt_leaves_no_trace() {
    let mut timer = Timer::new(three_segments());
    complete_attempt(&mut timer, 0, &[10, 25, 40]);
    timer.start(at(100));
    timer.split(at(105));
    assert_eq!(timer.current_split_index(), 1);
    timer.reset(false);
    assert_eq!(timer.current_phase(), TimerPhase::NotStarted);
    assert_eq!(timer.current_split_index(), 0);
    assert_eq!(timer.live_split_times(), &vec![None, None, None]);
    let run = timer.run();
    assert_eq!(run.attempt_count(), 1);
    assert_eq!(run.attempt_history().len(), 1);
    assert_eq!(
        best_segment_times(run, TimingMethod::RealTime),
        vec![Some(secs(10)), Some(secs(15)), Some(secs(15))]
    );
    assert_eq!(
        split_times(run, TimingMethod::RealTime),
        vec![Some(secs(10)), Some(secs(25)), Some(secs(40))]
    );
}

#[test]
fn abandoned_attempt_is_recorded_when_splits_are_updated() {
    let mut timer = Timer::new(three_segments());
    complete_attempt(&mut timer, 0, &[10, 25, 40]);
    timer.start(at(100));
    timer.split(at(108));
    timer.reset(true);
    let run = timer.run();
    // The attempt enters the history with the one segment that it reached.
    assert_eq!(run.attempt_count(), 2);
    let entry = &run.attempt_history()[1];
    assert_eq!(entry.index, 2);
    assert_eq!(entry.ended, None);
    assert_eq!(entry.segment_times, vec![Some(secs(8)), None, None]);
    // Its segment time is a new best, but it cannot be a personal best.
    assert_eq!(
        best_segment_times(run, TimingMethod::RealTime),
        vec![Some(secs(8)), Some(secs(15)), Some(secs(15))]
    );
    assert_eq!(
        split_times(run, TimingMethod::RealTime),
        vec![Some(secs(10)), Some(secs(25)), Some(secs(40))]
    );
}

#[test]
fn skipped_segment_has_no_segment_time_and_neither_has_the_next() {
    let mut timer = Timer::new(three_segments());
    timer.start(at(0));
    timer.skip_split();
    timer.split(at(25));
    timer.split(at(40));
    timer.reset(true);
    let run = timer.run();
    assert_eq!(
        run.attempt_history()[0].segment_times,
        vec![None, None, Some(secs(15))]
    );
    assert_eq!(
        best_segment_times(run, TimingMethod::RealTime),
        vec![None, None, Some(secs(15))]
    );
    assert_eq!(
        split_times(run, TimingMethod::RealTime),
        vec![None, Some(secs(25)), Some(secs(40))]
    );
}

#[test]
fn timing_method_switches_without_touching_recorded_times() {
    let mut timer = Timer::new(three_segments());
    timer.start(at(0));
    timer.split(at(10));
    timer.switch_timing_method();
    assert_eq!(timer.current_timing_method(), TimingMethod::GameTime);
    assert_eq!(timer.live_split_times(), &vec![Some(secs(10)), None, None]);
    timer.switch_timing_method();
    assert_eq!(timer.current_timing_method(), TimingMethod::RealTime);
    timer.set_current_timing_method(TimingMethod::GameTime);
    assert_eq!(timer.current_timing_method(), TimingMethod::GameTime);
    timer.split(at(25));
    timer.split(at(40));
    timer.reset(true);
    // The attempt is kept under the method that was selected at the reset.
    let run = timer.run();
    assert_eq!(run.attempt_history()[0].timing_method, TimingMethod::GameTime);
    assert_eq!(
        split_times(run, TimingMethod::GameTime),
        vec![Some(secs(10)), Some(secs(25)), Some(secs(40))]
    );
    assert_eq!(split_times(run, TimingMethod::RealTime), vec![None, None, None]);
}

#[test]
fn commands_can_be_given_as_values() {
    let mut timer = Timer::new(three_segments());
    let commands = [
        Command::Split(at(1)),
        Command::Start(at(0)),
        Command::Split(at(10)),
        Command::SkipSplit,
        Command::UndoSplit,
        Command::Pause(at(12)),
        Command::Pause(at(14)),
        Command::SwitchTimingMethod,
        Command::SetTimingMethod(TimingMethod::RealTime),
        Command::NextComparison,
        Command::PreviousComparison,
        Command::Split(at(27)),
        Command::Split(at(42)),
        Command::Reset(true),
    ];
    for command in commands {
        timer.apply(command);
    }
    assert_eq!(timer.current_phase(), TimerPhase::NotStarted);
    assert_eq!(timer.current_comparison(), "Personal Best");
    assert_eq!(
        split_times(timer.run(), TimingMethod::RealTime),
        vec![Some(secs(10)), Some(secs(25)), Some(secs(40))]
    );
}

#[test]
fn clock_that_runs_backwards_gives_negative_times() {
    let mut timer = Timer::new(three_segments());
    timer.start(at(10));
    timer.split(at(4));
    assert_eq!(timer.live_split_times(), &vec![Some(secs(-6)), None, None]);
}

#[test]
fn run_can_be_copied_and_taken_out() {
    let mut timer = Timer::new(three_segments());
    complete_attempt(&mut timer, 0, &[10, 25, 40]);
    let copy = timer.clone_run();
    timer.start(at(100));
    timer.split(at(101));
    timer.reset(true);
    assert_eq!(copy.attempt_count(), 1);
    assert_eq!(
        best_segment_times(&copy, TimingMethod::RealTime),
        vec![Some(secs(10)), Some(secs(15)), Some(secs(15))]
    );
    let run = timer.into_run();
    assert_eq!(run.attempt_count(), 2);
    assert_eq!(run.game_name(), "Game");
    assert_eq!(run.category_name(), "Any%");
}
