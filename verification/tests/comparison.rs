use livesplit_core::comparison::generate::{generate_builtin, running_totals_of};
use livesplit_core::comparison::selection::{is_known, next_name, previous_name};
use livesplit_core::comparison::{generate, BuiltinComparison, BUILTIN_COUNT};
use livesplit_core::{
    CustomComparison, Run, Segment, TimeSpan, TimeStamp, Timer, TimingMethod,
};

fn at(seconds: u64) -> TimeStamp {
    TimeStamp::from_nanos(seconds * 1_000_000_000)
}

fn secs(seconds: i64) -> TimeSpan {
    TimeSpan::from_seconds(seconds)
}

fn millis(milliseconds: i64) -> TimeSpan {
    TimeSpan::from_millis(milliseconds)
}

fn three_segments() -> Run {
    let mut run = Run::new();
    for name in ["One", "Two", "Three"] {
        run.push_segment(Segment::new(name.to_string()));
    }
    run
}

/// A run with two attempts in its history, of segment times 10, 15, 15 and
/// 9, 17, 14.
fn run_with_history() -> Run {
    let mut timer = Timer::new(three_segments());
    for (start, splits) in [(0, [10, 25, 40]), (100, [9, 26, 40])] {
        timer.start(at(start));
        for split in splits {
            timer.split(at(start + split));
        }
        timer.reset(true);
    }
    timer.into_run()
}

fn custom(name: &str, real: Vec<Option<TimeSpan>>, game: Vec<Option<TimeSpan>>) -> CustomComparison {
    CustomComparison { name: name.to_string(), real_time: real, game_time: game }
}

#[test]
fn built_in_comparisons_have_their_names_and_places() {
    assert_eq!(BUILTIN_COUNT, 5);
    let names = [
        "Personal Best",
        "Best Segments",
        "Average Segments",
        "Median Segments",
        "Worst Segments",
    ];
    for (place, name) in names.iter().enumerate() {
        let comparison = BuiltinComparison::at(place).unwrap();
        assert_eq!(comparison.name(), *name);
        assert_eq!(comparison.position(), place);
        assert_eq!(BuiltinComparison::from_name(&name.to_string()), Some(comparison));
    }
    assert_eq!(BuiltinComparison::at(5), None);
    assert_eq!(BuiltinComparison::from_name(&"personal best".to_string()), None);
}

#[test]
fn running_totals_stop_at_the_first_gap() {
    assert_eq!(
        running_totals_of(&vec![Some(secs(1)), Some(secs(2)), None, Some(secs(4))]),
        vec![Some(secs(1)), Some(secs(3)), None, None]
    );
    assert_eq!(running_totals_of(&vec![]), vec![]);
    assert_eq!(running_totals_of(&vec![None, Some(secs(1))]), vec![None, None]);
}

#[test]
fn personal_best_gives_the_stored_split_times() {
    let run = run_with_history();
    assert_eq!(
        generate(&run, &"Personal Best".to_string(), TimingMethod::RealTime),
        vec![Some(secs(10)), Some(secs(25)), Some(secs(40))]
    );
    assert_eq!(
        generate(&run, &"Personal Best".to_string(), TimingMethod::GameTime),
        vec![None, None, None]
    );
}

#[test]
fn best_segments_add_up_the_best_segment_times() {
    let run = run_with_history();
    assert_eq!(
        generate(&run, &"Best Segments".to_string(), TimingMethod::RealTime),
        vec![Some(secs(9)), Some(secs(24)), Some(secs(38))]
    );
}

#[test]
fn average_segments_add_up_the_mean_segment_times() {
    let run = run_with_history();
    assert_eq!(
        generate(&run, &"Average Segments".to_string(), TimingMethod::RealTime),
        vec![Some(millis(9_500)), Some(millis(25_500)), Some(secs(40))]
    );
    assert_eq!(
        generate_builtin(&run, BuiltinComparison::AverageSegments, TimingMethod::GameTime),
        vec![None, None, None]
    );
}

#[test]
fn average_is_rounded_towards_zero() {
    let mut timer = Timer::new(three_segments());
    // A clock that runs backwards gives the segment times -1 and -2
    // nanoseconds.
    for back in [1, 2] {
        timer.start(TimeStamp::from_nanos(10));
        timer.split(TimeStamp::from_nanos(10 - back));
        timer.reset(true);
    }
    let run = timer.into_run();
    assert_eq!(
        generate(&run, &"Average Segments".to_string(), TimingMethod::RealTime),
        vec![Some(TimeSpan::from_nanos(-1)), None, None]
    );
}

#[test]
fn median_segments_add_up_the_median_segment_times() {
    // Of two times the median is the shorter one.
    let run = run_with_history();
    assert_eq!(
        generate(&run, &"Median Segments".to_string(), TimingMethod::RealTime),
        vec![Some(secs(9)), Some(secs(24)), Some(secs(38))]
    );
    // Of three times it is the one in the middle.
    let mut timer = Timer::new(run);
    timer.start(at(200));
    timer.split(at(212));
    timer.split(at(228));
    timer.split(at(248));
    timer.reset(true);
    let run = timer.into_run();
    assert_eq!(
        generate(&run, &"Median Segments".to_string(), TimingMethod::RealTime),
        vec![Some(secs(10)), Some(secs(26)), Some(secs(41))]
    );
    assert_eq!(
        generate(&run, &"Median Segments".to_string(), TimingMethod::GameTime),
        vec![None, None, None]
    );
}

#[test]
fn median_of_equal_times_is_that_time() {
    let mut timer = Timer::new(three_segments());
    for start in [0, 100, 200, 300] {
        timer.start(at(start));
        timer.split(at(start + 5));
        timer.reset(true);
    }
    let run = timer.into_run();
    assert_eq!(
        generate(&run, &"Median Segments".to_string(), TimingMethod::RealTime),
        vec![Some(secs(5)), None, None]
    );
}

#[test]
fn worst_segments_add_up_the_longest_segment_times() {
    let run = run_with_history();
    assert_eq!(
        generate(&run, &"Worst Segments".to_string(), TimingMethod::RealTime),
        vec![Some(secs(10)), Some(secs(27)), Some(secs(42))]
    );
}

#[test]
fn custom_comparison_gives_its_stored_times() {
    let mut run = run_with_history();
    run.add_custom_comparison(custom(
        "Race",
        vec![Some(secs(1)), None, Some(secs(3)), Some(secs(4))],
        vec![Some(secs(7))],
    ))
    .unwrap();
    assert_eq!(
        generate(&run, &"Race".to_string(), TimingMethod::RealTime),
        vec![Some(secs(1)), None, Some(secs(3))]
    );
    assert_eq!(
        generate(&run, &"Race".to_string(), TimingMethod::GameTime),
        vec![Some(secs(7)), None, None]
    );
}

#[test]
fn unknown_name_falls_back_to_the_personal_best() {
    let mut run = run_with_history();
    run.add_custom_comparison(custom("Race", vec![Some(secs(1))], vec![])).unwrap();
    run.remove_custom_comparison(&"Race".to_string());
    assert!(!is_known(&run, &"Race".to_string()));
    assert_eq!(
        generate(&run, &"Race".to_string(), TimingMethod::RealTime),
        vec![Some(secs(10)), Some(secs(25)), Some(secs(40))]
    );
    assert_eq!(next_name(&run, &"Race".to_string()), "Best Segments");
    assert_eq!(previous_name(&run, &"Race".to_string()), "Worst Segments");
}

#[test]
fn comparisons_are_stepped_through_in_order() {
    let mut run = three_segments();
    run.add_custom_comparison(custom("Race", vec![], vec![])).unwrap();
    run.add_custom_comparison(custom("Goal", vec![], vec![])).unwrap();
    let order = [
        "Personal Best",
        "Best Segments",
        "Average Segments",
        "Median Segments",
        "Worst Segments",
        "Race",
        "Goal",
    ];
    for (place, name) in order.iter().enumerate() {
        assert!(is_known(&run, &name.to_string()));
        assert_eq!(next_name(&run, &name.to_string()), order[(place + 1) % order.len()]);
        assert_eq!(
            previous_name(&run, &name.to_string()),
            order[(place + order.len() - 1) % order.len()]
        );
    }
}

#[test]
fn timer_cycles_through_the_comparisons() {
    let mut run = three_segments();
    run.add_custom_comparison(custom("Race", vec![], vec![])).unwrap();
    let mut timer = Timer::new(run);
    let mut seen = Vec::new();
    for _ in 0..6 {
        seen.push(timer.current_comparison().clone());
        timer.switch_to_next_comparison();
    }
    assert_eq!(
        seen,
        vec![
            "Personal Best",
            "Best Segments",
            "Average Segments",
            "Median Segments",
            "Worst Segments",
            "Race",
        ]
    );
    assert_eq!(timer.current_comparison(), "Personal Best");
    timer.switch_to_previous_comparison();
    assert_eq!(timer.current_comparison(), "Race");
    timer.switch_to_previous_comparison();
    assert_eq!(timer.current_comparison(), "Worst Segments");
    timer.switch_to_next_comparison();
    assert_eq!(timer.current_comparison(), "Race");
}

#[test]
fn timer_without_custom_comparisons_cycles_through_the_built_in_ones() {
    let mut timer = Timer::new(three_segments());
    timer.switch_to_previous_comparison();
    assert_eq!(timer.current_comparison(), "Worst Segments");
    timer.switch_to_next_comparison();
    assert_eq!(timer.current_comparison(), "Personal Best");
    for _ in 0..5 {
        timer.switch_to_next_comparison();
    }
    assert_eq!(timer.current_comparison(), "Personal Best");
}

#[test]
fn delta_measures_the_attempt_against_the_selected_comparison() {
    let mut timer = Timer::new(run_with_history());
    timer.start(at(200));
    timer.split(at(212));
    timer.split(at(220));
    assert_eq!(
        timer.comparison_times(),
        vec![Some(secs(10)), Some(secs(25)), Some(secs(40))]
    );
    assert_eq!(timer.delta(0), Some(secs(2)));
    assert_eq!(timer.delta(1), Some(secs(-5)));
    assert_eq!(timer.delta(2), None);
    assert_eq!(timer.delta(3), None);
    timer.switch_to_next_comparison();
    assert_eq!(timer.delta(0), Some(secs(3)));
    assert_eq!(timer.delta(1), Some(secs(-4)));
    timer.switch_timing_method();
    assert_eq!(timer.delta(0), None);
}
