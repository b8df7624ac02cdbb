use livesplit_core::timing::formatter::{extract_hundredths, extract_milliseconds, extract_tenths};
use livesplit_core::{TimeSpan, TimeStamp, TimingMethod};

#[test]
fn zero_is_a_time_like_any_other() {
    assert_eq!(TimeSpan::zero().total_nanos(), 0);
    assert_eq!(TimeSpan::zero(), TimeSpan::from_nanos(0));
    assert_ne!(Some(TimeSpan::zero()), None);
    assert!(!TimeSpan::zero().is_negative());
}

#[test]
fn time_spans_are_built_from_seconds_and_milliseconds() {
    assert_eq!(TimeSpan::from_seconds(3).total_nanos(), 3_000_000_000);
    assert_eq!(TimeSpan::from_seconds(-3).total_nanos(), -3_000_000_000);
    assert_eq!(TimeSpan::from_millis(1_500).total_nanos(), 1_500_000_000);
    assert_eq!(TimeSpan::from_millis(-1).total_nanos(), -1_000_000);
    assert_eq!(TimeSpan::from_nanos(-7).magnitude(), 7);
    assert_eq!(TimeSpan::from_nanos(i64::MIN).magnitude(), 1u64 << 63);
}

#[test]
fn construction_saturates() {
    assert_eq!(TimeSpan::from_seconds(i64::MAX).total_nanos(), i64::MAX);
    assert_eq!(TimeSpan::from_seconds(i64::MIN).total_nanos(), i64::MIN);
    assert_eq!(TimeSpan::from_millis(i64::MAX).total_nanos(), i64::MAX);
    assert_eq!(TimeSpan::from_millis(i64::MIN).total_nanos(), i64::MIN);
}

#[test]
fn time_spans_add_subtract_and_negate() {
    let a = TimeSpan::from_seconds(10);
    let b = TimeSpan::from_seconds(4);
    assert_eq!(a + b, TimeSpan::from_seconds(14));
    assert_eq!(a - b, TimeSpan::from_seconds(6));
    assert_eq!(b - a, TimeSpan::from_seconds(-6));
    assert_eq!(-a, TimeSpan::from_seconds(-10));
    assert_eq!(a + TimeSpan::zero(), a);
    assert!((b - a).is_negative());
}

#[test]
fn arithmetic_saturates_and_keeps_its_sign() {
    let most = TimeSpan::from_nanos(i64::MAX);
    let least = TimeSpan::from_nanos(i64::MIN);
    let one = TimeSpan::from_nanos(1);
    assert_eq!(most + one, most);
    assert_eq!(least - one, least);
    assert_eq!(most - least, most);
    assert_eq!(least - most, least);
    assert_eq!(-least, most);
    assert_eq!(-most, TimeSpan::from_nanos(i64::MIN + 1));
}

#[test]
fn time_spans_are_ordered_by_length() {
    let short = TimeSpan::from_seconds(-1);
    let long = TimeSpan::from_seconds(1);
    assert!(short < long);
    assert!(long > short);
    assert!(short <= short);
    assert_eq!(short.partial_cmp(&long), Some(std::cmp::Ordering::Less));
    assert_eq!(long.partial_cmp(&short), Some(std::cmp::Ordering::Greater));
    assert_eq!(long.partial_cmp(&long), Some(std::cmp::Ordering::Equal));
}

#[test]
fn time_stamps_measure_elapsed_time() {
    let early = TimeStamp::from_nanos(5);
    let late = TimeStamp::from_nanos(12);
    assert_eq!(late.since(early), TimeSpan::from_nanos(7));
    assert_eq!(early.since(late), TimeSpan::from_nanos(-7));
    assert_eq!(early.since(early), TimeSpan::zero());
    let origin = TimeStamp::from_nanos(0);
    let far = TimeStamp::from_nanos(u64::MAX);
    assert_eq!(far.since(origin), TimeSpan::from_nanos(i64::MAX));
    assert_eq!(origin.since(far), TimeSpan::from_nanos(i64::MIN));
}

#[test]
fn timing_method_toggles() {
    assert_eq!(TimingMethod::RealTime.toggled(), TimingMethod::GameTime);
    assert_eq!(TimingMethod::GameTime.toggled(), TimingMethod::RealTime);
}

#[test]
fn fraction_digits_are_extracted() {
    let time = TimeSpan::from_nanos(12_345_678_901);
    assert_eq!(extract_tenths(time), 3);
    assert_eq!(extract_hundredths(time), 34);
    assert_eq!(extract_milliseconds(time), 345);
    let whole = TimeSpan::from_seconds(7);
    assert_eq!(extract_tenths(whole), 0);
    assert_eq!(extract_hundredths(whole), 0);
    assert_eq!(extract_milliseconds(whole), 0);
}

#[test]
fn fraction_digits_ignore_the_sign() {
    let time = TimeSpan::from_millis(-263_500);
    assert_eq!(extract_tenths(time), 5);
    assert_eq!(extract_hundredths(time), 50);
    assert_eq!(extract_milliseconds(time), 500);
}

#[test]
fn fraction_just_below_a_digit_shows_that_digit() {
    // 10 nanoseconds below a tenth.
    assert_eq!(extract_tenths(TimeSpan::from_nanos(99_999_990)), 1);
    // 11 nanoseconds below a tenth.
    assert_eq!(extract_tenths(TimeSpan::from_nanos(99_999_989)), 0);
    assert_eq!(extract_hundredths(TimeSpan::from_nanos(9_999_999)), 1);
    assert_eq!(extract_hundredths(TimeSpan::from_nanos(9_999_998)), 0);
    // A nanosecond below a millisecond is too far below it.
    assert_eq!(extract_milliseconds(TimeSpan::from_nanos(999_999)), 0);
    assert_eq!(extract_milliseconds(TimeSpan::from_nanos(1_000_000)), 1);
}

#[test]
fn fraction_digits_never_pass_their_largest_value() {
    let time = TimeSpan::from_nanos(999_999_999);
    assert_eq!(extract_tenths(time), 9);
    assert_eq!(extract_hundredths(time), 99);
    assert_eq!(extract_milliseconds(time), 999);
}
