//! Writing numbers and clock times as decimal digits.

use crate::timing::formatter::MINUS;
use crate::timing::time_span::{TimeSpan, NANOS_PER_SECOND};
use vstd::prelude::*;

verus! {

/// The character of the decimal digit `d`.
pub open spec fn digit_char(d: int) -> char {
    if d == 1 {
        '1'
    } else if d == 2 {
        '2'
    } else if d == 3 {
        '3'
    } else if d == 4 {
        '4'
    } else if d == 5 {
        '5'
    } else if d == 6 {
        '6'
    } else if d == 7 {
        '7'
    } else if d == 8 {
        '8'
    } else if d == 9 {
        '9'
    } else {
        '0'
    }
}

/// The decimal digits of `n`, without leading zeros.
pub open spec fn decimal(n: nat) -> Seq<char>
    decreases n,
{
    if n < 10 {
        seq![digit_char(n as int)]
    } else {
        decimal(n / 10).push(digit_char((n % 10) as int))
    }
}

/// The two decimal digits of a number below 100.
pub open spec fn two_digits(n: nat) -> Seq<char> {
    seq![digit_char((n / 10) as int), digit_char((n % 10) as int)]
}

/// The three decimal digits of a number below 1000.
pub open spec fn three_digits(n: nat) -> Seq<char> {
    seq![
        digit_char((n / 100) as int),
        digit_char(((n / 10) % 10) as int),
        digit_char((n % 10) as int),
    ]
}

/// The whole seconds of a duration of `nanos` nanoseconds, the sign left
/// out.
pub open spec fn whole_seconds(nanos: int) -> nat {
    (vstd::math::abs(nanos) / (NANOS_PER_SECOND as nat)) as nat
}

/// A duration of `seconds` whole seconds as a clock time: hours, minutes
/// and seconds, the hours left out where there are none. The minutes are
/// left out too where there are none, unless `always_minutes` is set.
pub open spec fn clock(seconds: nat, always_minutes: bool) -> Seq<char> {
    let hours = seconds / 3600;
    let minutes = (seconds / 60) % 60;
    let rest = seconds % 60;
    if hours > 0 {
        decimal(hours) + seq![':'] + two_digits(minutes) + seq![':'] + two_digits(rest)
    } else if minutes > 0 || always_minutes {
        decimal(minutes) + seq![':'] + two_digits(rest)
    } else {
        decimal(rest)
    }
}

/// The sign that is shown before a duration of `nanos` nanoseconds: a minus
/// sign before a negative one, and nothing else.
pub open spec fn sign(nanos: int) -> Seq<char> {
    if nanos < 0 {
        MINUS@
    } else {
        Seq::empty()
    }
}

/// Appends the character of the decimal digit `d`.
pub fn push_digit(text: &mut String, d: u8)
    requires
        d < 10,
    ensures
        final(text)@ == old(text)@.push(digit_char(d as int)),
{
    proof {
        reveal_strlit("0");
        reveal_strlit("1");
        reveal_strlit("2");
        reveal_strlit("3");
        reveal_strlit("4");
        reveal_strlit("5");
        reveal_strlit("6");
        reveal_strlit("7");
        reveal_strlit("8");
        reveal_strlit("9");
    }
    let digit = if d == 0 {
        "0"
    } else if d == 1 {
        "1"
    } else if d == 2 {
        "2"
    } else if d == 3 {
        "3"
    } else if d == 4 {
        "4"
    } else if d == 5 {
        "5"
    } else if d == 6 {
        "6"
    } else if d == 7 {
        "7"
    } else if d == 8 {
        "8"
    } else {
        "9"
    };
    assert(digit@ =~= seq![digit_char(d as int)]);
    text.append(digit);
    assert(text@ =~= old(text)@.push(digit_char(d as int)));
}

/// Appends a colon.
pub fn push_colon(text: &mut String)
    ensures
        final(text)@ == old(text)@ + seq![':'],
{
    proof {
        reveal_strlit(":");
    }
    assert(":"@ =~= seq![':']);
    text.append(":");
}

/// Appends a decimal point.
pub fn push_point(text: &mut String)
    ensures
        final(text)@ == old(text)@ + seq!['.'],
{
    proof {
        reveal_strlit(".");
    }
    assert("."@ =~= seq!['.']);
    text.append(".");
}

/// Appends the decimal digits of `n`, without leading zeros.
pub fn push_decimal(text: &mut String, n: u64)
    ensures
        final(text)@ == old(text)@ + decimal(n as nat),
    decreases n,
{
    if n >= 10 {
        push_decimal(text, n / 10);
    }
    push_digit(text, (n % 10) as u8);
    assert(text@ =~= old(text)@ + decimal(n as nat));
}

/// Appends the two decimal digits of a number below 100.
pub fn push_two_digits(text: &mut String, n: u64)
    requires
        n < 100,
    ensures
        final(text)@ == old(text)@ + two_digits(n as nat),
{
    push_digit(text, (n / 10) as u8);
    push_digit(text, (n % 10) as u8);
    assert(text@ =~= old(text)@ + two_digits(n as nat));
}

/// Appends the three decimal digits of a number below 1000.
pub fn push_three_digits(text: &mut String, n: u64)
    requires
        n < 1000,
    ensures
        final(text)@ == old(text)@ + three_digits(n as nat),
{
    push_digit(text, (n / 100) as u8);
    push_digit(text, ((n / 10) % 10) as u8);
    push_digit(text, (n % 10) as u8);
    assert(text@ =~= old(text)@ + three_digits(n as nat));
}

/// Appends the sign of `time`.
pub fn push_sign(text: &mut String, time: TimeSpan)
    ensures
        final(text)@ == old(text)@ + sign(time@),
{
    if time.is_negative() {
        text.append(MINUS);
    } else {
        assert(text@ =~= old(text)@ + sign(time@));
    }
}

/// Appends the whole seconds of `time` as a clock time.
pub fn push_clock(text: &mut String, time: TimeSpan, always_minutes: bool)
    ensures
        final(text)@ == old(text)@ + clock(whole_seconds(time@), always_minutes),
{
    let seconds = time.magnitude() / 1_000_000_000;
    let hours = seconds / 3600;
    let minutes = (seconds / 60) % 60;
    let rest = seconds % 60;
    let ghost shown = clock(whole_seconds(time@), always_minutes);
    if hours > 0 {
        push_decimal(text, hours);
        push_colon(text);
        push_two_digits(text, minutes);
        push_colon(text);
        push_two_digits(text, rest);
        assert(text@ =~= old(text)@ + shown);
    } else if minutes > 0 || always_minutes {
        push_decimal(text, minutes);
        push_colon(text);
        push_two_digits(text, rest);
        assert(text@ =~= old(text)@ + shown);
    } else {
        push_decimal(text, rest);
    }
}

} // verus!
