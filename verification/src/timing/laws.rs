//! What holds of the timer whatever commands it is given.

use crate::comparison::selection::{lemma_position_in_range, lemma_position_of_name};
use crate::comparison::{
    comparison_names, comparison_position, has_comparison, next_comparison_name,
    previous_comparison_name,
};
use crate::timing::timer::{Command, TimerView};
use crate::timing::{TimeSpan, TimeStamp, TimerPhase};
use vstd::prelude::*;

verus! {

/// The timer after a split at each of `readings`, in order.
pub open spec fn after_splits(timer: TimerView, readings: Seq<TimeStamp>) -> TimerView
    decreases readings.len(),
{
    if readings.len() == 0 {
        timer
    } else {
        after_splits(timer, readings.drop_last()).split(readings.last())
    }
}

/// The timer after, for each of `readings` in order, a split at that reading
/// and an undo.
pub open spec fn after_split_undo_rounds(timer: TimerView, readings: Seq<TimeStamp>) -> TimerView
    decreases readings.len(),
{
    if readings.len() == 0 {
        timer
    } else {
        after_split_undo_rounds(timer, readings.drop_last()).split(readings.last()).undo_split()
    }
}

/// The timer after `steps` steps to the next comparison.
pub open spec fn after_next_comparisons(timer: TimerView, steps: nat) -> TimerView
    decreases steps,
{
    if steps == 0 {
        timer
    } else {
        after_next_comparisons(timer, (steps - 1) as nat).switch_to_next_comparison()
    }
}

/// Every command leaves a well-formed timer well formed.
pub proof fn law_commands_keep_timer_well_formed(timer: TimerView, command: Command)
    requires
        timer.wf(),
    ensures
        timer.apply(command).wf(),
{
    crate::comparison::selection::lemma_steps_stay_in_run(timer.run, timer.current_comparison);
}

/// Every sequence of commands leaves a well-formed timer well formed.
pub proof fn law_command_sequences_keep_timer_well_formed(timer: TimerView, commands: Seq<Command>)
    requires
        timer.wf(),
    ensures
        timer.apply_all(commands).wf(),
    decreases commands.len(),
{
    if commands.len() > 0 {
        law_command_sequences_keep_timer_well_formed(timer, commands.drop_last());
        law_commands_keep_timer_well_formed(
            timer.apply_all(commands.drop_last()),
            commands.last(),
        );
    }
}

/// While the timer is not started, the commands that act on an open attempt
/// (split, skip, undo, pause, reset) change nothing, neither in the run nor
/// in the timer, however many of them are given.
pub proof fn law_idle_timer_ignores_attempt_commands(timer: TimerView, commands: Seq<Command>)
    requires
        timer.wf(),
        timer.phase == TimerPhase::NotStarted,
        forall|i: int| 0 <= i < commands.len() ==> (#[trigger] commands[i]).acts_on_open_attempt(),
    ensures
        timer.apply_all(commands) == timer,
    decreases commands.len(),
{
    if commands.len() > 0 {
        law_idle_timer_ignores_attempt_commands(timer, commands.drop_last());
        assert(commands.last() == commands[commands.len() - 1]);
        assert(commands.last().acts_on_open_attempt());
    }
}

/// While the timer is not started, no sequence of commands without a start
/// changes the run or opens an attempt. All that such commands can change is
/// which timing method and which comparison are selected.
pub proof fn law_idle_timer_keeps_run(timer: TimerView, commands: Seq<Command>)
    requires
        timer.wf(),
        timer.phase == TimerPhase::NotStarted,
        forall|i: int| 0 <= i < commands.len() ==> !((#[trigger] commands[i]) is Start),
    ensures
        timer.apply_all(commands) == (TimerView {
            current_timing_method: timer.apply_all(commands).current_timing_method,
            current_comparison: timer.apply_all(commands).current_comparison,
            ..timer
        }),
    decreases commands.len(),
{
    if commands.len() > 0 {
        law_idle_timer_keeps_run(timer, commands.drop_last());
        assert(commands.last() == commands[commands.len() - 1]);
        assert(!(commands.last() is Start));
    }
}

/// After a start, `k` splits lead to split index `k`. The timer runs after
/// every split but the last one of the run, which ends the attempt.
pub proof fn law_splits_advance_to_the_end(
    timer: TimerView,
    started_at: TimeStamp,
    readings: Seq<TimeStamp>,
)
    requires
        timer.wf(),
        timer.phase == TimerPhase::NotStarted,
        timer.segment_count() > 0,
        readings.len() <= timer.segment_count(),
    ensures
        after_splits(timer.start(started_at), readings).wf(),
        after_splits(timer.start(started_at), readings).current_split_index == readings.len(),
        after_splits(timer.start(started_at), readings).phase == if readings.len()
            < timer.segment_count() {
            TimerPhase::Running
        } else {
            TimerPhase::Ended
        },
        after_splits(timer.start(started_at), readings).run == timer.run,
    decreases readings.len(),
{
    if readings.len() > 0 {
        law_splits_advance_to_the_end(timer, started_at, readings.drop_last());
    }
}

/// An undo after a split gives back the timer as it was before the split:
/// the split index, the live split times and all the rest.
pub proof fn law_undo_reverts_split(timer: TimerView, now: TimeStamp)
    requires
        timer.wf(),
        timer.phase == TimerPhase::Running,
    ensures
        timer.split(now).undo_split() == timer,
        timer.split(now).undo_split().current_split_index == timer.current_split_index,
        timer.split(now).undo_split().live_split_times[timer.current_split_index].is_none(),
{
    let back = timer.split(now).undo_split();
    assert(back.live_split_times =~= timer.live_split_times);
}

/// Any number of rounds of a split and an undo gives back the running timer
/// as it was, so after a start the timer is again as the start left it.
pub proof fn law_split_undo_rounds_change_nothing(timer: TimerView, readings: Seq<TimeStamp>)
    requires
        timer.wf(),
        timer.phase == TimerPhase::Running,
    ensures
        after_split_undo_rounds(timer, readings) == timer,
    decreases readings.len(),
{
    if readings.len() > 0 {
        law_split_undo_rounds_change_nothing(timer, readings.drop_last());
        law_undo_reverts_split(timer, readings.last());
    }
}

/// A skip records no time: the live split times are after it what they were
/// before, with none at the skipped segment. On the last segment of the run
/// a skip changes nothing at all.
pub proof fn law_skip_records_no_time(timer: TimerView)
    requires
        timer.wf(),
    ensures
        timer.skip_split().live_split_times == timer.live_split_times,
        timer.phase == TimerPhase::Running && timer.current_split_index + 1 < timer.segment_count()
            ==> {
            &&& timer.skip_split().current_split_index == timer.current_split_index + 1
            &&& timer.skip_split().live_split_times[timer.current_split_index].is_none()
            &&& timer.skip_split().phase == TimerPhase::Running
        },
        timer.current_split_index + 1 >= timer.segment_count() ==> timer.skip_split() == timer,
{
    assert(timer.skip_split().live_split_times =~= timer.live_split_times);
}

/// A pause that is taken back at the same clock reading leaves the timer as
/// it was, the accumulated pause duration included.
pub proof fn law_pause_without_elapse_changes_nothing(timer: TimerView, now: TimeStamp)
    requires
        timer.wf(),
        timer.phase == TimerPhase::Running,
    ensures
        timer.pause(now).pause(now) == timer,
{
}

/// A split that follows a pause records the time since the start without
/// the pauses, the new one included. Where nothing saturates, it is shorter
/// than the split of a timer that was never paused by exactly the time
/// from `paused` to `resumed`.
pub proof fn law_split_leaves_out_pause(
    timer: TimerView,
    paused: TimeStamp,
    resumed: TimeStamp,
    now: TimeStamp,
)
    requires
        timer.wf(),
        timer.phase == TimerPhase::Running,
    ensures
        ({
            let i = timer.current_split_index;
            let started = timer.attempt_started_at.unwrap();
            let pauses = timer.accumulated_pause_duration.plus(resumed.elapsed_since(paused));
            let with_pause = timer.pause(paused).pause(resumed).split(now).live_split_times[i];
            let without_pause = timer.split(now).live_split_times[i];
            &&& timer.pause(paused).pause(resumed).accumulated_pause_duration == pauses
            &&& with_pause == Some(now.elapsed_since(started).minus(pauses))
            &&& without_pause == Some(
                now.elapsed_since(started).minus(timer.accumulated_pause_duration),
            )
            &&& (i64::MIN <= now.nanos - started.nanos <= i64::MAX && i64::MIN <= resumed.nanos
                - paused.nanos <= i64::MAX && i64::MIN <= timer.accumulated_pause_duration@ + (
            resumed.nanos - paused.nanos) <= i64::MAX && i64::MIN <= now.nanos - started.nanos
                - timer.accumulated_pause_duration@ - (resumed.nanos - paused.nanos) <= i64::MAX
                && i64::MIN <= now.nanos - started.nanos - timer.accumulated_pause_duration@
                <= i64::MAX) ==> with_pause.unwrap()@ == without_pause.unwrap()@ - (resumed.nanos
                - paused.nanos)
        }),
{
}

/// A step to the next comparison moves the place of the selected comparison
/// on by one, and from the last place to the first.
proof fn lemma_next_moves_on(timer: TimerView)
    requires
        timer.wf(),
    ensures
        timer.switch_to_next_comparison().wf(),
        ({
            let n = comparison_names(timer.run).len();
            let p = comparison_position(timer.run, timer.current_comparison);
            let q = comparison_position(
                timer.run,
                timer.switch_to_next_comparison().current_comparison,
            );
            q == if p + 1 < n {
                p + 1
            } else {
                0
            }
        }),
{
    let n = comparison_names(timer.run).len();
    let p = comparison_position(timer.run, timer.current_comparison);
    lemma_position_in_range(timer.run, timer.current_comparison);
    law_commands_keep_timer_well_formed(timer, Command::NextComparison);
    if p + 1 < n {
        lemma_position_of_name(timer.run, p + 1);
    } else {
        lemma_position_of_name(timer.run, 0);
    }
}

/// Steps to the next comparison change nothing but the selected comparison,
/// and they move its place on as far as the last place allows.
proof fn lemma_steps_move_on(timer: TimerView, steps: nat)
    requires
        timer.wf(),
        comparison_position(timer.run, timer.current_comparison) + steps < comparison_names(
            timer.run,
        ).len(),
    ensures
        after_next_comparisons(timer, steps).wf(),
        after_next_comparisons(timer, steps) == (TimerView {
            current_comparison: after_next_comparisons(timer, steps).current_comparison,
            ..timer
        }),
        comparison_position(timer.run, after_next_comparisons(timer, steps).current_comparison)
            == comparison_position(timer.run, timer.current_comparison) + steps,
    decreases steps,
{
    if steps > 0 {
        lemma_steps_move_on(timer, (steps - 1) as nat);
        lemma_next_moves_on(after_next_comparisons(timer, (steps - 1) as nat));
    }
}

/// Steps to the next comparison can be taken in two parts.
proof fn lemma_steps_compose(timer: TimerView, first: nat, second: nat)
    ensures
        after_next_comparisons(timer, first + second) == after_next_comparisons(
            after_next_comparisons(timer, first),
            second,
        ),
    decreases second,
{
    if second > 0 {
        lemma_steps_compose(timer, first, (second - 1) as nat);
        assert((first + second - 1) as nat == first + (second - 1) as nat);
    }
}

/// As many steps to the next comparison as the run has comparisons lead
/// back to the comparison that was selected, and change nothing else.
pub proof fn law_comparisons_cycle(timer: TimerView)
    requires
        timer.wf(),
    ensures
        after_next_comparisons(timer, comparison_names(timer.run).len()) == timer,
{
    let n = comparison_names(timer.run).len();
    let p = comparison_position(timer.run, timer.current_comparison);
    lemma_position_in_range(timer.run, timer.current_comparison);
    let to_last = (n - 1 - p) as nat;
    // From place p to the last place, from there to the first, and on to p.
    lemma_steps_move_on(timer, to_last);
    let at_last = after_next_comparisons(timer, to_last);
    lemma_next_moves_on(at_last);
    let at_first = at_last.switch_to_next_comparison();
    assert(at_first == after_next_comparisons(timer, to_last + 1));
    lemma_steps_move_on(at_first, p as nat);
    let back = after_next_comparisons(at_first, p as nat);
    lemma_steps_compose(timer, to_last + 1, p as nat);
    assert(to_last + 1 + p as nat == n);
    assert(back == after_next_comparisons(timer, n));
    lemma_position_in_range(timer.run, back.current_comparison);
    assert(back.current_comparison == timer.current_comparison);
}

/// A step to the previous comparison takes back a step to the next one, and
/// a step to the next comparison takes back a step to the previous one.
pub proof fn law_previous_comparison_inverts_next(timer: TimerView)
    requires
        timer.wf(),
    ensures
        timer.switch_to_next_comparison().switch_to_previous_comparison() == timer,
        timer.switch_to_previous_comparison().switch_to_next_comparison() == timer,
{
    let names = comparison_names(timer.run);
    let n = names.len();
    let p = comparison_position(timer.run, timer.current_comparison);
    lemma_position_in_range(timer.run, timer.current_comparison);
    lemma_next_moves_on(timer);
    let after = if p + 1 < n {
        p + 1
    } else {
        0
    };
    lemma_position_of_name(timer.run, after);
    let before = if p == 0 {
        n - 1
    } else {
        p - 1
    };
    lemma_position_of_name(timer.run, before);
    assert(timer.switch_to_previous_comparison().current_comparison == names[before]);
    assert(timer.switch_to_next_comparison().current_comparison == names[after]);
}

} // verus!
