use livesplit_core::timing::formatter::{
    Accuracy, Regular, SegmentTime, TimeFormatter, ASCII_MINUS, DASH, MINUS, PLUS,
};
use livesplit_core::TimeSpan;

#[test]
fn segment_time_shows_hundredths() {
    let formatter = SegmentTime::new();
    assert_eq!(formatter.format(Some(TimeSpan::from_millis(-263_500))), "−4:23.50");
    assert_eq!(formatter.format(Some(TimeSpan::from_millis(7_030))), "7.03");
    assert_eq!(formatter.format(Some(TimeSpan::zero())), "0.00");
    assert_eq!(formatter.format(Some(TimeSpan::from_millis(60_000))), "1:00.00");
    assert_eq!(formatter.format(Some(TimeSpan::from_millis(3_723_450))), "1:02:03.45");
    assert_eq!(formatter.format(Some(TimeSpan::from_millis(-500))), "−0.50");
}

#[test]
fn segment_time_shows_a_dash_for_no_time() {
    assert_eq!(SegmentTime::new().format(None), "—");
    assert_eq!(SegmentTime::new().format(None), DASH);
}

#[test]
fn regular_always_shows_minutes() {
    let formatter = Regular::new();
    assert_eq!(formatter.accuracy, Accuracy::Seconds);
    assert_eq!(formatter.format(Some(TimeSpan::from_seconds(7))), "0:07");
    assert_eq!(formatter.format(Some(TimeSpan::from_millis(83_999))), "1:23");
    assert_eq!(formatter.format(Some(TimeSpan::from_seconds(36_000))), "10:00:00");
    assert_eq!(formatter.format(Some(TimeSpan::from_seconds(-61))), "−1:01");
    assert_eq!(formatter.format(None), "—");
}

#[test]
fn regular_shows_as_many_digits_as_its_accuracy_says() {
    let time = Some(TimeSpan::from_millis(83_456));
    assert_eq!(Regular::with_accuracy(Accuracy::Seconds).format(time), "1:23");
    assert_eq!(Regular::with_accuracy(Accuracy::Tenths).format(time), "1:23.4");
    assert_eq!(Regular::with_accuracy(Accuracy::Hundredths).format(time), "1:23.45");
    assert_eq!(Regular::with_accuracy(Accuracy::Milliseconds).format(time), "1:23.456");
    let short = Some(TimeSpan::from_millis(1_007));
    assert_eq!(Regular::with_accuracy(Accuracy::Milliseconds).format(short), "0:01.007");
    assert_eq!(Regular::with_accuracy(Accuracy::Hundredths).format(short), "0:01.00");
}

#[test]
fn longest_time_is_formatted() {
    let time = Some(TimeSpan::from_nanos(i64::MIN));
    assert_eq!(
        Regular::with_accuracy(Accuracy::Milliseconds).format(time),
        "−2562047:47:16.854"
    );
}

#[test]
fn signs_are_what_they_say() {
    assert_eq!(MINUS, "\u{2212}");
    assert_eq!(DASH, "\u{2014}");
    assert_eq!(ASCII_MINUS, "-");
    assert_eq!(PLUS, "+");
}
