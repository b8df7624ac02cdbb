use livesplit_core::component::title::Component;
use livesplit_core::{Image, Run, Segment, TimeStamp, Timer};

fn timer() -> Timer {
    let mut run = Run::new();
    run.set_game_name("Super Game".to_string());
    run.set_category_name("100%".to_string());
    run.push_segment(Segment::new("Only".to_string()));
    Timer::new(run)
}

#[test]
fn title_shows_game_category_and_attempts() {
    let mut timer = timer();
    let mut component = Component::new();
    let state = component.state(&timer);
    assert_eq!(state.game, "Super Game");
    assert_eq!(state.category, "100%");
    assert_eq!(state.attempts, 0);
    assert_eq!(state.icon_change, None);
    timer.start(TimeStamp::from_nanos(0));
    timer.split(TimeStamp::from_nanos(5));
    timer.reset(true);
    assert_eq!(component.state(&timer).attempts, 1);
}

#[test]
fn icon_is_handed_out_once_per_change() {
    let mut run = timer().into_run();
    run.set_game_icon("data:first".to_string());
    let timer = Timer::new(run);
    let mut component = Component::default();
    assert_eq!(component.state(&timer).icon_change, Some("data:first".to_string()));
    assert_eq!(component.state(&timer).icon_change, None);
    let mut run = timer.into_run();
    run.set_game_icon("data:second".to_string());
    let timer = Timer::new(run);
    assert_eq!(component.state(&timer).icon_change, Some("data:second".to_string()));
    assert_eq!(component.state(&timer).icon_change, None);
}

#[test]
fn remount_hands_the_icon_out_again() {
    let mut run = timer().into_run();
    run.set_game_icon("data:icon".to_string());
    let timer = Timer::new(run);
    let mut component = Component::new();
    assert!(component.state(&timer).icon_change.is_some());
    assert!(component.state(&timer).icon_change.is_none());
    component.remount();
    assert_eq!(component.state(&timer).icon_change, Some("data:icon".to_string()));
}

#[test]
fn image_versions_move_on() {
    let mut image = Image::new();
    assert_eq!(image.id(), 0);
    assert_eq!(image.url(), "");
    let mut seen = 0;
    assert_eq!(image.check_for_change(&mut seen), None);
    image.modify("a".to_string());
    assert_eq!(image.id(), 1);
    assert_eq!(image.check_for_change(&mut seen), Some(&"a".to_string()));
    assert_eq!(seen, 1);
    assert_eq!(image.check_for_change(&mut seen), None);
    image.modify("b".to_string());
    assert_eq!(image.id(), 2);
    let mut last = Image::from_parts(usize::MAX, "z".to_string());
    last.modify("y".to_string());
    assert_eq!(last.id(), 1);
    assert_eq!(last.clone().url(), "y");
}
