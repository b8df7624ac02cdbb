//! Generating the times of a comparison: for every segment of a run the
//! split time that the comparison holds against an attempt.

use crate::comparison::selection::{select, Selection};
use crate::comparison::{spec_builtin_named, BuiltinComparison};
use crate::run::{views, Attempt, AttemptView, Run, RunView};
use crate::timing::{TimeSpan, TimingMethod};
use vstd::prelude::*;

verus! {

/// The sum of the first `i + 1` of `durations`, added up in order. It is
/// known only where all of them are.
pub open spec fn running_total(durations: Seq<Option<TimeSpan>>, i: int) -> Option<TimeSpan>
    decreases i,
{
    if i < 0 || i >= durations.len() {
        None
    } else if i == 0 {
        durations[0]
    } else {
        match (running_total(durations, i - 1), durations[i]) {
            (Some(total), Some(duration)) => Some(total.plus(duration)),
            _ => None,
        }
    }
}

/// For every place the sum of `durations` up to and including that place.
pub open spec fn running_totals(durations: Seq<Option<TimeSpan>>) -> Seq<Option<TimeSpan>> {
    Seq::new(durations.len(), |i: int| running_total(durations, i))
}

/// How many of the first `upto` attempts have a time for segment `i` under
/// `method`.
pub open spec fn recorded_count(
    history: Seq<AttemptView>,
    method: TimingMethod,
    i: int,
    upto: int,
) -> int
    decreases upto,
{
    if upto <= 0 {
        0
    } else {
        recorded_count(history, method, i, upto - 1) + if history[upto - 1].segment_time(
            method,
            i,
        ).is_some() {
            1int
        } else {
            0int
        }
    }
}

/// The sum, in nanoseconds, of the times that the first `upto` attempts
/// have for segment `i` under `method`.
pub open spec fn recorded_sum(
    history: Seq<AttemptView>,
    method: TimingMethod,
    i: int,
    upto: int,
) -> int
    decreases upto,
{
    if upto <= 0 {
        0
    } else {
        recorded_sum(history, method, i, upto - 1) + match history[upto - 1].segment_time(
            method,
            i,
        ) {
            Some(time) => time@,
            None => 0,
        }
    }
}

/// The longest time that the first `upto` attempts have for segment `i`
/// under `method`.
pub open spec fn longest_recorded(
    history: Seq<AttemptView>,
    method: TimingMethod,
    i: int,
    upto: int,
) -> Option<TimeSpan>
    decreases upto,
{
    if upto <= 0 {
        None
    } else {
        let before = longest_recorded(history, method, i, upto - 1);
        match (before, history[upto - 1].segment_time(method, i)) {
            (Some(longest), Some(time)) => if time@ > longest@ {
                Some(time)
            } else {
                Some(longest)
            },
            (None, Some(time)) => Some(time),
            (_, None) => before,
        }
    }
}

/// How many of the first `upto` attempts have a time for segment `i` under
/// `method` that is shorter than `bound` nanoseconds.
pub open spec fn recorded_below(
    history: Seq<AttemptView>,
    method: TimingMethod,
    i: int,
    upto: int,
    bound: int,
) -> int
    decreases upto,
{
    if upto <= 0 {
        0
    } else {
        recorded_below(history, method, i, upto - 1, bound) + match history[upto
            - 1].segment_time(method, i) {
            Some(time) => if time@ < bound {
                1int
            } else {
                0int
            },
            None => 0int,
        }
    }
}

/// How many of the first `upto` attempts have a time for segment `i` under
/// `method` that is no longer than `bound` nanoseconds.
pub open spec fn recorded_up_to(
    history: Seq<AttemptView>,
    method: TimingMethod,
    i: int,
    upto: int,
    bound: int,
) -> int
    decreases upto,
{
    if upto <= 0 {
        0
    } else {
        recorded_up_to(history, method, i, upto - 1, bound) + match history[upto
            - 1].segment_time(method, i) {
            Some(time) => if time@ <= bound {
                1int
            } else {
                0int
            },
            None => 0int,
        }
    }
}

/// Whether `time` is the median of the times that the history has for
/// segment `i` under `method`: the time that stands in the middle when the
/// times are put in order, and the earlier of the two in the middle where
/// their number is even.
pub open spec fn is_median(
    history: Seq<AttemptView>,
    method: TimingMethod,
    i: int,
    time: TimeSpan,
) -> bool {
    let n = history.len() as int;
    let count = recorded_count(history, method, i, n);
    let middle = (count - 1) / 2;
    &&& count > 0
    &&& recorded_below(history, method, i, n, time@) <= middle
    &&& middle < recorded_up_to(history, method, i, n, time@)
}

/// The median of the times that the history has for segment `i` under
/// `method`.
pub open spec fn median_segment_time(
    history: Seq<AttemptView>,
    method: TimingMethod,
    i: int,
) -> Option<TimeSpan> {
    if exists|time: TimeSpan| is_median(history, method, i, time) {
        Some(choose|time: TimeSpan| is_median(history, method, i, time))
    } else {
        None
    }
}

/// The times up to a shorter bound are among the times below a longer one.
proof fn lemma_ranks_are_ordered(
    history: Seq<AttemptView>,
    method: TimingMethod,
    i: int,
    upto: int,
    shorter: int,
    longer: int,
)
    requires
        shorter < longer,
    ensures
        recorded_up_to(history, method, i, upto, shorter) <= recorded_below(
            history,
            method,
            i,
            upto,
            longer,
        ),
    decreases upto,
{
    if upto > 0 {
        lemma_ranks_are_ordered(history, method, i, upto - 1, shorter, longer);
    }
}

/// There is at most one median.
pub proof fn lemma_median_is_unique(
    history: Seq<AttemptView>,
    method: TimingMethod,
    i: int,
    a: TimeSpan,
    b: TimeSpan,
)
    requires
        is_median(history, method, i, a),
        is_median(history, method, i, b),
    ensures
        a == b,
{
    let n = history.len() as int;
    if a@ < b@ {
        lemma_ranks_are_ordered(history, method, i, n, a@, b@);
    } else if b@ < a@ {
        lemma_ranks_are_ordered(history, method, i, n, b@, a@);
    }
}

/// Where more times are up to a bound than below it, the history has a time
/// of just that length.
proof fn lemma_rank_has_witness(
    history: Seq<AttemptView>,
    method: TimingMethod,
    i: int,
    upto: int,
    bound: int,
) -> (j: int)
    requires
        upto <= history.len(),
        recorded_below(history, method, i, upto, bound) < recorded_up_to(
            history,
            method,
            i,
            upto,
            bound,
        ),
    ensures
        0 <= j < upto,
        history[j].segment_time(method, i) matches Some(time) && time@ == bound,
    decreases upto,
{
    if upto <= 0 {
        0
    } else {
        match history[upto - 1].segment_time(method, i) {
            Some(time) => {
                if time@ == bound {
                    upto - 1
                } else {
                    lemma_rank_has_witness(history, method, i, upto - 1, bound)
                }
            },
            None => lemma_rank_has_witness(history, method, i, upto - 1, bound),
        }
    }
}

/// The longest of the times below `bound` nanoseconds that the first `upto`
/// attempts have for segment `i` under `method`.
pub open spec fn longest_below(
    history: Seq<AttemptView>,
    method: TimingMethod,
    i: int,
    upto: int,
    bound: int,
) -> Option<TimeSpan>
    decreases upto,
{
    if upto <= 0 {
        None
    } else {
        let before = longest_below(history, method, i, upto - 1, bound);
        match history[upto - 1].segment_time(method, i) {
            Some(time) => {
                if time@ < bound && (before matches Some(longest) ==> time@ > longest@) {
                    Some(time)
                } else {
                    before
                }
            },
            None => before,
        }
    }
}

/// The longest time below a bound is a time of the history below that
/// bound, and no time of the history lies between the two.
proof fn lemma_longest_below(
    history: Seq<AttemptView>,
    method: TimingMethod,
    i: int,
    upto: int,
    bound: int,
    between: int,
)
    requires
        between < bound,
        longest_below(history, method, i, upto, bound) matches Some(longest) ==> longest@
            <= between,
    ensures
        recorded_up_to(history, method, i, upto, between) == recorded_below(
            history,
            method,
            i,
            upto,
            bound,
        ),
        match longest_below(history, method, i, upto, bound) {
            Some(longest) => longest@ < bound && recorded_below(history, method, i, upto, longest@)
                < recorded_up_to(history, method, i, upto, longest@),
            None => recorded_below(history, method, i, upto, bound) == 0,
        },
        recorded_below(history, method, i, upto, bound) >= 0,
    decreases upto,
{
    if upto > 0 {
        lemma_longest_below(history, method, i, upto - 1, bound, between);
        match longest_below(history, method, i, upto, bound) {
            Some(longest) => {
                lemma_ranks_grow(history, method, i, upto - 1, longest@);
            },
            None => {},
        }
    }
}

/// The longest time below a bound lies below that bound.
proof fn lemma_longest_is_below(
    history: Seq<AttemptView>,
    method: TimingMethod,
    i: int,
    upto: int,
    bound: int,
)
    ensures
        longest_below(history, method, i, upto, bound) matches Some(longest) ==> longest@ < bound,
    decreases upto,
{
    if upto > 0 {
        lemma_longest_is_below(history, method, i, upto - 1, bound);
    }
}

/// No more times are below a bound than up to it.
proof fn lemma_ranks_grow(
    history: Seq<AttemptView>,
    method: TimingMethod,
    i: int,
    upto: int,
    bound: int,
)
    ensures
        0 <= recorded_below(history, method, i, upto, bound) <= recorded_up_to(
            history,
            method,
            i,
            upto,
            bound,
        ) <= recorded_count(history, method, i, upto),
        bound > i64::MAX ==> recorded_below(history, method, i, upto, bound) == recorded_count(
            history,
            method,
            i,
            upto,
        ),
    decreases upto,
{
    if upto > 0 {
        lemma_ranks_grow(history, method, i, upto - 1, bound);
    }
}

/// Where more than half of the times lie below a bound, one of them is the
/// median.
proof fn lemma_median_lies_below(
    history: Seq<AttemptView>,
    method: TimingMethod,
    i: int,
    bound: int,
)
    requires
        recorded_below(history, method, i, history.len() as int, bound) > (recorded_count(
            history,
            method,
            i,
            history.len() as int,
        ) - 1) / 2,
        recorded_count(history, method, i, history.len() as int) > 0,
    ensures
        exists|time: TimeSpan| is_median(history, method, i, time),
    decreases recorded_below(history, method, i, history.len() as int, bound),
{
    let n = history.len() as int;
    lemma_ranks_grow(history, method, i, n, bound);
    lemma_longest_is_below(history, method, i, n, bound);
    match longest_below(history, method, i, n, bound) {
        Some(longest) => {
            lemma_longest_below(history, method, i, n, bound, longest@);
            lemma_ranks_grow(history, method, i, n, longest@);
            if recorded_below(history, method, i, n, longest@) <= (recorded_count(
                history,
                method,
                i,
                n,
            ) - 1) / 2 {
                assert(is_median(history, method, i, longest));
            } else {
                lemma_median_lies_below(history, method, i, longest@);
            }
        },
        None => {
            lemma_longest_below(history, method, i, n, bound, bound - 1);
        },
    }
}

/// A segment for which the history has a time under `method` has a median
/// time, and no other segment has.
pub proof fn lemma_median_exists(history: Seq<AttemptView>, method: TimingMethod, i: int)
    ensures
        median_segment_time(history, method, i).is_some() <==> recorded_count(
            history,
            method,
            i,
            history.len() as int,
        ) > 0,
        median_segment_time(history, method, i) matches Some(time) ==> is_median(
            history,
            method,
            i,
            time,
        ),
{
    let n = history.len() as int;
    if recorded_count(history, method, i, n) > 0 {
        lemma_ranks_grow(history, method, i, n, i64::MAX + 1);
        lemma_median_lies_below(history, method, i, i64::MAX + 1);
    }
}

/// The quotient of `sum` by `count`, rounded towards zero.
pub open spec fn quotient_towards_zero(sum: int, count: int) -> int {
    if sum >= 0 {
        sum / count
    } else {
        -((-sum) / count)
    }
}

/// A quotient rounded towards zero lies between the bounds that hold of the
/// summands.
proof fn lemma_quotient_stays_between(sum: int, count: int, low: int, high: int)
    requires
        count > 0,
        low <= 0 <= high,
        count * low <= sum <= count * high,
    ensures
        low <= quotient_towards_zero(sum, count) <= high,
{
    if sum >= 0 {
        let q = sum / count;
        let r = sum % count;
        vstd::arithmetic::div_mod::lemma_fundamental_div_mod(sum, count);
        vstd::arithmetic::div_mod::lemma_mod_bound(sum, count);
        assert(0 <= q <= high) by (nonlinear_arith)
            requires
                sum == count * q + r,
                0 <= r < count,
                0 <= sum <= count * high,
                count > 0,
        {
        }
    } else {
        let q = (-sum) / count;
        let r = (-sum) % count;
        vstd::arithmetic::div_mod::lemma_fundamental_div_mod(-sum, count);
        vstd::arithmetic::div_mod::lemma_mod_bound(-sum, count);
        assert(count * (-low) == -(count * low)) by (nonlinear_arith);
        assert(0 <= q <= -low) by (nonlinear_arith)
            requires
                -sum == count * q + r,
                0 <= r < count,
                0 <= -sum <= count * (-low),
                count > 0,
        {
        }
    }
}

/// The mean of the times that the history has for segment `i` under
/// `method`, rounded towards zero, if it has any.
pub open spec fn average_segment_time(
    history: Seq<AttemptView>,
    method: TimingMethod,
    i: int,
) -> Option<TimeSpan> {
    let count = recorded_count(history, method, i, history.len() as int);
    if count == 0 {
        None
    } else {
        Some(
            TimeSpan::of(
                quotient_towards_zero(recorded_sum(history, method, i, history.len() as int), count),
            ),
        )
    }
}

/// The longest time that the history has for segment `i` under `method`.
pub open spec fn longest_segment_time(
    history: Seq<AttemptView>,
    method: TimingMethod,
    i: int,
) -> Option<TimeSpan> {
    longest_recorded(history, method, i, history.len() as int)
}

/// The times of a built-in comparison.
pub open spec fn builtin_times(
    run: RunView,
    comparison: BuiltinComparison,
    method: TimingMethod,
) -> Seq<Option<TimeSpan>> {
    let n = run.segments.len();
    match comparison {
        BuiltinComparison::PersonalBest => Seq::new(
            n,
            |i: int| run.segments[i].times(method).split_time,
        ),
        BuiltinComparison::BestSegments => running_totals(
            Seq::new(n, |i: int| run.segments[i].times(method).best_segment_time),
        ),
        BuiltinComparison::AverageSegments => running_totals(
            Seq::new(n, |i: int| average_segment_time(run.attempt_history, method, i)),
        ),
        BuiltinComparison::MedianSegments => running_totals(
            Seq::new(n, |i: int| median_segment_time(run.attempt_history, method, i)),
        ),
        BuiltinComparison::WorstSegments => running_totals(
            Seq::new(n, |i: int| longest_segment_time(run.attempt_history, method, i)),
        ),
    }
}

/// The times of the comparison called `name`: one split time per segment of
/// the run. A custom comparison gives the times that it stores. A name that
/// the run does not have stands for the personal best.
pub open spec fn comparison_times(
    run: RunView,
    name: Seq<char>,
    method: TimingMethod,
) -> Seq<Option<TimeSpan>> {
    match spec_builtin_named(name) {
        Some(comparison) => builtin_times(run, comparison, method),
        None => {
            if run.has_custom(name) {
                Seq::new(
                    run.segments.len(),
                    |i: int| run.custom_comparisons[run.custom_position(name)].time_at(method, i),
                )
            } else {
                builtin_times(run, BuiltinComparison::PersonalBest, method)
            }
        },
    }
}

/// For every place the sum of `durations` up to and including that place.
pub fn running_totals_of(durations: &Vec<Option<TimeSpan>>) -> (r: Vec<Option<TimeSpan>>)
    ensures
        r@ == running_totals(durations@),
{
    let mut totals: Vec<Option<TimeSpan>> = Vec::new();
    let mut total: Option<TimeSpan> = None;
    let mut i: usize = 0;
    while i < durations.len()
        invariant
            i <= durations@.len(),
            totals@.len() == i,
            i > 0 ==> total == running_total(durations@, i - 1),
            forall|j: int| 0 <= j < i ==> #[trigger] totals@[j] == running_total(durations@, j),
        decreases durations@.len() - i,
    {
        total = if i == 0 {
            durations[0]
        } else {
            match (total, durations[i]) {
                (Some(so_far), Some(duration)) => Some(so_far + duration),
                _ => None,
            }
        };
        totals.push(total);
        i += 1;
    }
    assert(totals@ =~= running_totals(durations@));
    totals
}

/// The mean of the times that the history has for segment `i` under
/// `method`.
fn average_of_segment(history: &Vec<Attempt>, method: TimingMethod, i: usize) -> (r: Option<
    TimeSpan,
>)
    ensures
        r == average_segment_time(views(history@), method, i as int),
{
    let ghost all = views(history@);
    let mut sum: i128 = 0;
    let mut count: usize = 0;
    let mut k: usize = 0;
    while k < history.len()
        invariant
            k <= history@.len(),
            all == views(history@),
            count <= k,
            count == recorded_count(all, method, i as int, k as int),
            sum == recorded_sum(all, method, i as int, k as int),
            count * (-0x8000_0000_0000_0000) <= sum <= count * 0x7fff_ffff_ffff_ffff,
        decreases history@.len() - k,
    {
        assert(all[k as int] == history@[k as int]@);
        if let Some(time) = history[k].segment_time(method, i) {
            sum = sum + time.total_nanos() as i128;
            count = count + 1;
        }
        k += 1;
    }
    if count == 0 {
        None
    } else {
        let mean: i128 = sum / (count as i128);
        proof {
            lemma_quotient_stays_between(
                sum as int,
                count as int,
                -0x8000_0000_0000_0000,
                0x7fff_ffff_ffff_ffff,
            );
        }
        Some(TimeSpan::from_nanos(mean as i64))
    }
}

/// How many times the history has for segment `i` under `method` that are
/// shorter than `bound` nanoseconds, and how many that are no longer.
fn ranks_of(history: &Vec<Attempt>, method: TimingMethod, i: usize, bound: i64) -> (r: (
    usize,
    usize,
))
    ensures
        r.0 == recorded_below(views(history@), method, i as int, history@.len() as int, bound as int),
        r.1 == recorded_up_to(views(history@), method, i as int, history@.len() as int, bound as int),
{
    let ghost all = views(history@);
    let mut below: usize = 0;
    let mut up_to: usize = 0;
    let mut k: usize = 0;
    while k < history.len()
        invariant
            k <= history@.len(),
            all == views(history@),
            below <= k,
            up_to <= k,
            below == recorded_below(all, method, i as int, k as int, bound as int),
            up_to == recorded_up_to(all, method, i as int, k as int, bound as int),
        decreases history@.len() - k,
    {
        assert(all[k as int] == history@[k as int]@);
        if let Some(time) = history[k].segment_time(method, i) {
            if time.nanos < bound {
                below = below + 1;
            }
            if time.nanos <= bound {
                up_to = up_to + 1;
            }
        }
        k += 1;
    }
    (below, up_to)
}

/// The number of times that the history has for segment `i` under `method`.
fn count_of_segment(history: &Vec<Attempt>, method: TimingMethod, i: usize) -> (r: usize)
    ensures
        r == recorded_count(views(history@), method, i as int, history@.len() as int),
{
    let ghost all = views(history@);
    let mut count: usize = 0;
    let mut k: usize = 0;
    while k < history.len()
        invariant
            k <= history@.len(),
            all == views(history@),
            count <= k,
            count == recorded_count(all, method, i as int, k as int),
        decreases history@.len() - k,
    {
        assert(all[k as int] == history@[k as int]@);
        if history[k].segment_time(method, i).is_some() {
            count = count + 1;
        }
        k += 1;
    }
    count
}

/// The median of the times that the history has for segment `i` under
/// `method`.
fn median_of_segment(history: &Vec<Attempt>, method: TimingMethod, i: usize) -> (r: Option<
    TimeSpan,
>)
    ensures
        r == median_segment_time(views(history@), method, i as int),
{
    let ghost all = views(history@);
    let count = count_of_segment(history, method, i);
    if count == 0 {
        return None;
    }
    let middle = (count - 1) / 2;
    let mut k: usize = 0;
    while k < history.len()
        invariant
            k <= history@.len(),
            all == views(history@),
            count == recorded_count(all, method, i as int, all.len() as int),
            count > 0,
            middle == (count - 1) / 2,
            forall|j: int|
                0 <= j < k ==> ((#[trigger] all[j]).segment_time(method, i as int) matches Some(
                    time,
                ) ==> !is_median(all, method, i as int, time)),
        decreases history@.len() - k,
    {
        assert(all[k as int] == history@[k as int]@);
        if let Some(time) = history[k].segment_time(method, i) {
            let (below, up_to) = ranks_of(history, method, i, time.nanos);
            if below <= middle && middle < up_to {
                proof {
                    assert(is_median(all, method, i as int, time));
                    let chosen = choose|other: TimeSpan| is_median(all, method, i as int, other);
                    lemma_median_is_unique(all, method, i as int, chosen, time);
                }
                return Some(time);
            }
        }
        k += 1;
    }
    proof {
        assert forall|time: TimeSpan| !is_median(all, method, i as int, time) by {
            if is_median(all, method, i as int, time) {
                let j = lemma_rank_has_witness(all, method, i as int, all.len() as int, time@);
                assert(all[j].segment_time(method, i as int) == Some(time));
            }
        }
    }
    None
}

/// The longest time that the history has for segment `i` under `method`.
fn longest_of_segment(history: &Vec<Attempt>, method: TimingMethod, i: usize) -> (r: Option<
    TimeSpan,
>)
    ensures
        r == longest_segment_time(views(history@), method, i as int),
{
    let ghost all = views(history@);
    let mut longest: Option<TimeSpan> = None;
    let mut k: usize = 0;
    while k < history.len()
        invariant
            k <= history@.len(),
            all == views(history@),
            longest == longest_recorded(all, method, i as int, k as int),
        decreases history@.len() - k,
    {
        assert(all[k as int] == history@[k as int]@);
        if let Some(time) = history[k].segment_time(method, i) {
            longest = match longest {
                Some(so_far) => if time.nanos > so_far.nanos {
                    Some(time)
                } else {
                    Some(so_far)
                },
                None => Some(time),
            };
        }
        k += 1;
    }
    longest
}

/// The times of a built-in comparison of `run`.
pub fn generate_builtin(run: &Run, comparison: BuiltinComparison, method: TimingMethod) -> (r: Vec<
    Option<TimeSpan>,
>)
    ensures
        r@ == builtin_times(run@, comparison, method),
{
    let n = run.len();
    let segments = run.segments();
    let history = run.attempt_history();
    let mut times: Vec<Option<TimeSpan>> = Vec::new();
    let mut i: usize = 0;
    while i < n
        invariant
            i <= n,
            n == run@.segments.len(),
            views(segments@) == run@.segments,
            views(history@) == run@.attempt_history,
            times@.len() == i,
            forall|j: int|
                0 <= j < i ==> #[trigger] times@[j] == match comparison {
                    BuiltinComparison::PersonalBest => run@.segments[j].times(method).split_time,
                    BuiltinComparison::BestSegments => run@.segments[j].times(
                        method,
                    ).best_segment_time,
                    BuiltinComparison::AverageSegments => average_segment_time(
                        run@.attempt_history,
                        method,
                        j,
                    ),
                    BuiltinComparison::MedianSegments => median_segment_time(
                        run@.attempt_history,
                        method,
                        j,
                    ),
                    BuiltinComparison::WorstSegments => longest_segment_time(
                        run@.attempt_history,
                        method,
                        j,
                    ),
                },
        decreases n - i,
    {
        assert(views(segments@)[i as int] == segments@[i as int]@);
        let time = match comparison {
            BuiltinComparison::PersonalBest => segments[i].split_time(method),
            BuiltinComparison::BestSegments => segments[i].best_segment_time(method),
            BuiltinComparison::AverageSegments => average_of_segment(history, method, i),
            BuiltinComparison::MedianSegments => median_of_segment(history, method, i),
            BuiltinComparison::WorstSegments => longest_of_segment(history, method, i),
        };
        times.push(time);
        i += 1;
    }
    match comparison {
        BuiltinComparison::PersonalBest => {
            assert(times@ =~= builtin_times(run@, comparison, method));
            times
        },
        BuiltinComparison::BestSegments => {
            assert(times@ =~= Seq::new(
                run@.segments.len(),
                |i: int| run@.segments[i].times(method).best_segment_time,
            ));
            running_totals_of(&times)
        },
        BuiltinComparison::AverageSegments => {
            assert(times@ =~= Seq::new(
                run@.segments.len(),
                |i: int| average_segment_time(run@.attempt_history, method, i),
            ));
            running_totals_of(&times)
        },
        BuiltinComparison::MedianSegments => {
            assert(times@ =~= Seq::new(
                run@.segments.len(),
                |i: int| median_segment_time(run@.attempt_history, method, i),
            ));
            running_totals_of(&times)
        },
        BuiltinComparison::WorstSegments => {
            assert(times@ =~= Seq::new(
                run@.segments.len(),
                |i: int| longest_segment_time(run@.attempt_history, method, i),
            ));
            running_totals_of(&times)
        },
    }
}

/// The times of the comparison of `run` that is called `name`.
pub fn generate(run: &Run, name: &String, method: TimingMethod) -> (r: Vec<Option<TimeSpan>>)
    requires
        run@.wf(),
    ensures
        r@ == comparison_times(run@, name@, method),
        r@.len() == run@.segments.len(),
{
    proof {
        crate::comparison::lemma_builtin_names_differ();
    }
    match select(run, name) {
        Selection::Builtin(comparison) => generate_builtin(run, comparison, method),
        Selection::Custom(place) => {
            let customs = run.custom_comparisons();
            let n = run.len();
            proof {
                let chosen = run@.custom_position(name@);
                assert(run@.has_custom(name@));
                assert(chosen == place) by {
                    if chosen < place {
                        assert(run@.custom_comparisons[chosen].name
                            != run@.custom_comparisons[place as int].name);
                    } else if place < chosen {
                        assert(run@.custom_comparisons[place as int].name
                            != run@.custom_comparisons[chosen].name);
                    }
                }
                assert(!crate::comparison::is_builtin_name(
                    run@.custom_comparisons[place as int].name,
                ));
                assert(views(customs@)[place as int] == customs@[place as int]@);
            }
            let mut times: Vec<Option<TimeSpan>> = Vec::new();
            let mut i: usize = 0;
            while i < n
                invariant
                    i <= n,
                    place < customs@.len(),
                    times@.len() == i,
                    forall|j: int|
                        0 <= j < i ==> #[trigger] times@[j] == customs@[place as int]@.time_at(
                            method,
                            j,
                        ),
                decreases n - i,
            {
                times.push(customs[place].time_at(method, i));
                i += 1;
            }
            assert(times@ =~= comparison_times(run@, name@, method));
            times
        },
        Selection::Unknown => {
            proof {
                if run@.has_custom(name@) {
                    let k = run@.custom_position(name@);
                    assert(crate::comparison::comparison_names(run@)[crate::comparison::BUILTIN_COUNT
                        + k] == name@);
                }
                if crate::comparison::is_builtin_name(name@) {
                    let b = spec_builtin_named(name@).unwrap();
                    assert(crate::comparison::comparison_names(run@)[b.spec_position()] == name@);
                }
            }
            generate_builtin(run, BuiltinComparison::PersonalBest, method)
        },
    }
}

} // verus!
