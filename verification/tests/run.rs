use livesplit_core::run::segment_times_from_splits;
use livesplit_core::{
    Attempt, CustomComparison, Run, Segment, SegmentTimes, TimeSpan, TimeStamp, TimingMethod,
};

fn secs(seconds: i64) -> TimeSpan {
    TimeSpan::from_seconds(seconds)
}

fn run_of(names: &[&str]) -> Run {
    let mut run = Run::new();
    for name in names {
        run.push_segment(Segment::new(name.to_string()));
    }
    run
}

fn custom(name: &str) -> CustomComparison {
    CustomComparison { name: name.to_string(), real_time: vec![], game_time: vec![] }
}

#[test]
fn new_run_is_empty() {
    let run = Run::new();
    assert!(run.is_empty());
    assert_eq!(run.len(), 0);
    assert_eq!(run.game_name(), "");
    assert_eq!(run.category_name(), "");
    assert_eq!(run.attempt_count(), 0);
    assert!(run.attempt_history().is_empty());
    assert!(run.custom_comparisons().is_empty());
    assert_eq!(run.game_icon().id(), 0);
}

#[test]
fn segments_keep_their_order() {
    let mut run = run_of(&["A", "B", "C"]);
    assert_eq!(run.len(), 3);
    assert!(!run.is_empty());
    assert_eq!(run.segment(0).name(), "A");
    assert_eq!(run.segment(2).name(), "C");
    run.set_attempt_count(9);
    assert_eq!(run.attempt_count(), 9);
}

#[test]
fn segment_keeps_times_per_timing_method() {
    let mut segment = Segment::new("A".to_string());
    segment.set_split_time(TimingMethod::RealTime, Some(secs(5)));
    segment.set_best_segment_time(TimingMethod::GameTime, Some(secs(3)));
    assert_eq!(segment.split_time(TimingMethod::RealTime), Some(secs(5)));
    assert_eq!(segment.split_time(TimingMethod::GameTime), None);
    assert_eq!(segment.best_segment_time(TimingMethod::RealTime), None);
    assert_eq!(segment.best_segment_time(TimingMethod::GameTime), Some(secs(3)));
    assert_eq!(
        segment.times(TimingMethod::RealTime),
        SegmentTimes { split_time: Some(secs(5)), best_segment_time: None }
    );
    segment.set_name("B".to_string());
    segment.set_icon("data:x".to_string());
    assert_eq!(segment.name(), "B");
    assert_eq!(segment.icon().id(), 1);
    assert_eq!(segment.icon().url(), "data:x");
    let copy = segment.clone();
    assert_eq!(copy.name(), "B");
    assert_eq!(copy.split_time(TimingMethod::RealTime), Some(secs(5)));
}

#[test]
fn segment_best_is_replaced_only_by_a_strictly_shorter_time() {
    let mut run = run_of(&["A", "B"]);
    run.update_segment_best(0, TimingMethod::RealTime, secs(10));
    assert_eq!(run.segment(0).best_segment_time(TimingMethod::RealTime), Some(secs(10)));
    run.update_segment_best(0, TimingMethod::RealTime, secs(10));
    assert_eq!(run.segment(0).best_segment_time(TimingMethod::RealTime), Some(secs(10)));
    run.update_segment_best(0, TimingMethod::RealTime, secs(11));
    assert_eq!(run.segment(0).best_segment_time(TimingMethod::RealTime), Some(secs(10)));
    run.update_segment_best(0, TimingMethod::RealTime, secs(9));
    assert_eq!(run.segment(0).best_segment_time(TimingMethod::RealTime), Some(secs(9)));
    // The other segment and the other timing method are left alone.
    assert_eq!(run.segment(1).best_segment_time(TimingMethod::RealTime), None);
    assert_eq!(run.segment(0).best_segment_time(TimingMethod::GameTime), None);
    // A place past the last segment changes nothing.
    run.update_segment_best(2, TimingMethod::RealTime, secs(1));
    assert_eq!(run.len(), 2);
}

#[test]
fn segment_bests_are_offered_place_by_place() {
    let mut run = run_of(&["A", "B", "C"]);
    run.update_segment_bests(&vec![Some(secs(5)), None, Some(secs(7))], TimingMethod::GameTime);
    run.update_segment_bests(&vec![Some(secs(6)), Some(secs(2))], TimingMethod::GameTime);
    assert_eq!(run.segment(0).best_segment_time(TimingMethod::GameTime), Some(secs(5)));
    assert_eq!(run.segment(1).best_segment_time(TimingMethod::GameTime), Some(secs(2)));
    assert_eq!(run.segment(2).best_segment_time(TimingMethod::GameTime), Some(secs(7)));
}

#[test]
fn personal_best_replaces_every_split_time() {
    let mut run = run_of(&["A", "B", "C"]);
    let method = TimingMethod::RealTime;
    assert!(run.is_beaten_by(&vec![None, None, Some(secs(40))], method));
    assert!(!run.is_beaten_by(&vec![Some(secs(1)), Some(secs(2)), None], method));
    assert!(!run.is_beaten_by(&vec![Some(secs(1)), Some(secs(2))], method));
    run.commit_personal_best(&vec![Some(secs(10)), Some(secs(25)), Some(secs(40))], method);
    assert!(!run.is_beaten_by(&vec![None, None, Some(secs(40))], method));
    assert!(run.is_beaten_by(&vec![None, None, Some(secs(39))], method));
    run.commit_personal_best(&vec![Some(secs(9)), None], method);
    assert_eq!(run.segment(0).split_time(method), Some(secs(9)));
    assert_eq!(run.segment(1).split_time(method), None);
    assert_eq!(run.segment(2).split_time(method), None);
    assert_eq!(run.segment(0).split_time(TimingMethod::GameTime), None);
}

#[test]
fn history_grows_and_counts() {
    let mut run = run_of(&["A"]);
    let entry = Attempt {
        index: 1,
        started: TimeStamp::from_nanos(1),
        ended: None,
        segment_times: vec![Some(secs(3))],
        timing_method: TimingMethod::GameTime,
    };
    assert_eq!(entry.segment_time(TimingMethod::GameTime, 0), Some(secs(3)));
    assert_eq!(entry.segment_time(TimingMethod::RealTime, 0), None);
    assert_eq!(entry.segment_time(TimingMethod::GameTime, 1), None);
    run.append_history(entry.clone());
    run.append_history(entry);
    assert_eq!(run.attempt_count(), 2);
    assert_eq!(run.attempt_history().len(), 2);
    run.set_attempt_count(u32::MAX);
    run.append_history(run.attempt_history()[0].clone());
    assert_eq!(run.attempt_count(), u32::MAX);
    assert_eq!(run.attempt_history().len(), 3);
}

#[test]
fn segment_times_come_from_split_times() {
    assert_eq!(
        segment_times_from_splits(&vec![Some(secs(10)), Some(secs(25)), Some(secs(40))]),
        vec![Some(secs(10)), Some(secs(15)), Some(secs(15))]
    );
    assert_eq!(
        segment_times_from_splits(&vec![None, Some(secs(25)), Some(secs(40)), None]),
        vec![None, None, Some(secs(15)), None]
    );
    assert_eq!(segment_times_from_splits(&vec![]), vec![]);
}

#[test]
fn custom_comparisons_have_names_of_their_own() {
    let mut run = run_of(&["A"]);
    assert!(run.add_custom_comparison(custom("Race")).is_ok());
    assert!(run.add_custom_comparison(custom("Goal")).is_ok());
    let back = run.add_custom_comparison(custom("Race")).unwrap_err();
    assert_eq!(back.name, "Race");
    assert!(run.add_custom_comparison(custom("Personal Best")).is_err());
    assert!(run.add_custom_comparison(custom("Best Segments")).is_err());
    assert!(run.add_custom_comparison(custom("Average Segments")).is_err());
    assert!(run.add_custom_comparison(custom("Median Segments")).is_err());
    assert!(run.add_custom_comparison(custom("Worst Segments")).is_err());
    assert_eq!(run.custom_comparisons().len(), 2);
    assert_eq!(run.find_custom(&"Goal".to_string()), Some(1));
    assert_eq!(run.find_custom(&"None".to_string()), None);
    assert!(run.remove_custom_comparison(&"Race".to_string()));
    assert!(!run.remove_custom_comparison(&"Race".to_string()));
    assert_eq!(run.find_custom(&"Goal".to_string()), Some(0));
}

#[test]
fn run_is_rebuilt_from_parts_only_with_distinct_names() {
    let parts = |names: &[&str]| {
        Run::from_parts(
            livesplit_core::Image::new(),
            "G".to_string(),
            "C".to_string(),
            vec![Segment::new("A".to_string())],
            4,
            vec![],
            names.iter().map(|n| custom(n)).collect(),
        )
    };
    let run = parts(&["X", "Y"]).unwrap();
    assert_eq!(run.attempt_count(), 4);
    assert_eq!(run.game_name(), "G");
    assert_eq!(run.custom_comparisons().len(), 2);
    assert!(parts(&["X", "X"]).is_none());
    assert!(parts(&["X", "Worst Segments"]).is_none());
}

#[test]
fn copy_of_a_run_shares_nothing() {
    let mut run = run_of(&["A"]);
    run.set_game_name("G".to_string());
    let copy = run.clone();
    run.set_game_name("H".to_string());
    run.update_segment_best(0, TimingMethod::RealTime, secs(1));
    assert_eq!(copy.game_name(), "G");
    assert_eq!(copy.segment(0).best_segment_time(TimingMethod::RealTime), None);
}
