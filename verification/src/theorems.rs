//! What holds of the monitor over several steps.
//!
//! Every step of a monitor is stated over its `MonitorState`: `retargeted`
//! and `polled` say what the next state is, `fully_updated` and `published`
//! which states may follow. The theorems below are proved from these alone.

use vstd::prelude::*;

use crate::monitor::{ranking_usage, MonitorState, TOP_THREADS};
use crate::readings::{cputime_of, listed, ThreadReading};
use crate::tracker::UsageTracker;

verus! {

/// One thing that happens to a monitor.
pub enum Step {
    /// The owner names a new target, or none.
    Retarget(Option<i32>),
    /// The worker hands in the readings of all threads at the given instant.
    FullUpdate(Seq<ThreadReading>, u64),
    /// The worker hands in the readings of the busiest threads at the given
    /// instant.
    Tick(Seq<ThreadReading>, u64),
    /// The consumer polls.
    Poll,
}

/// `next` is a state in which `step` may leave a monitor that was in `pre`.
pub open spec fn follows(pre: MonitorState, step: Step, next: MonitorState) -> bool {
    match step {
        Step::Retarget(pid) => next == pre.retargeted(pid),
        Step::FullUpdate(readings, now) => if pre.full_update_due(now) {
            pre.fully_updated(readings, now, next)
        } else {
            next == pre
        },
        Step::Tick(readings, now) => pre.published(readings, now, next),
        Step::Poll => next == pre.polled(),
    }
}

/// `states` are the states that a monitor goes through while `steps` happen
/// to it one after the other.
pub open spec fn is_run(states: Seq<MonitorState>, steps: Seq<Step>) -> bool {
    &&& states.len() == steps.len() + 1
    &&& forall|i: int|
        0 <= i < steps.len() ==> follows(states[i], #[trigger] steps[i], states[i + 1])
}

/// Whatever happens to a monitor, in whatever order, it stays well-formed. In
/// particular it never samples more than `TOP_THREADS` threads, and the
/// threads it samples are among those it tracks.
pub proof fn theorem_runs_stay_well_formed(states: Seq<MonitorState>, steps: Seq<Step>, at: int)
    requires
        is_run(states, steps),
        states[0].wf(),
        0 <= at < states.len(),
    ensures
        states[at].wf(),
        states[at].top.len() <= TOP_THREADS,
        states[at].top.dom().subset_of(states[at].all.dom()),
    decreases at,
{
    if at > 0 {
        theorem_runs_stay_well_formed(states, steps, at - 1);
        assert(follows(states[at - 1], steps[at - 1], states[at]));
    }
}

/// Once a monitor was told to watch nothing, every poll finds nothing until
/// a process is named again: whatever else happens to it in the meantime, it
/// stays idle and no value waits for the consumer.
pub proof fn theorem_idle_runs_publish_nothing(
    pre: MonitorState,
    states: Seq<MonitorState>,
    steps: Seq<Step>,
    at: int,
)
    requires
        is_run(states, steps),
        states[0] == pre.retargeted(None),
        forall|i: int|
            0 <= i < steps.len() ==> !(#[trigger] steps[i] matches Step::Retarget(Some(_))),
        0 <= at < states.len(),
    ensures
        states[at].pid is None,
        states[at].util_max == Seq::<u64>::empty(),
        states[at].latest() is None,
    decreases at,
{
    if at > 0 {
        theorem_idle_runs_publish_nothing(pre, states, steps, at - 1);
        assert(follows(states[at - 1], steps[at - 1], states[at]));
    }
}

/// A full update never keeps more than `TOP_THREADS` threads for sampling,
/// whatever the monitor was before.
pub proof fn theorem_top_is_bounded(
    pre: MonitorState,
    readings: Seq<ThreadReading>,
    now: u64,
    next: MonitorState,
)
    requires
        pre.fully_updated(readings, now, next),
    ensures
        next.top.len() <= TOP_THREADS,
{
}

/// A retarget leaves nothing of the old target behind, neither a tracker nor
/// a published value: whatever two monitors tracked, watched and published,
/// they are the same monitor after both were given the same target, if only
/// their last full updates were at the same time. What a monitor hands out
/// after a retarget therefore owes nothing to the threads it tracked before.
pub proof fn theorem_retarget_forgets_trackers(a: MonitorState, b: MonitorState, pid: Option<i32>)
    requires
        a.last_full_update == b.last_full_update,
    ensures
        a.retargeted(pid) == b.retargeted(pid),
        a.retargeted(pid).all == Map::<i32, UsageTracker>::empty(),
        a.retargeted(pid).top == Map::<i32, UsageTracker>::empty(),
        a.retargeted(pid).util_max == Seq::<u64>::empty(),
{
}

/// A poll that follows a retarget finds nothing, whatever had been published
/// for the old target and not yet polled, and it goes on finding nothing
/// until the worker's next tick.
pub proof fn theorem_poll_after_retarget_finds_nothing(
    pre: MonitorState,
    pid: Option<i32>,
    readings: Seq<ThreadReading>,
    now: u64,
    updated: MonitorState,
)
    requires
        follows(pre.retargeted(pid), Step::FullUpdate(readings, now), updated),
    ensures
        pre.retargeted(pid).latest() is None,
        pre.retargeted(pid).polled() == pre.retargeted(pid),
        updated.latest() is None,
{
}

/// How many ticks `steps` end with, counted back to the last retarget or
/// poll among them.
pub open spec fn ticks_since_cleared(steps: Seq<Step>) -> nat
    decreases steps.len(),
{
    if steps.len() == 0 {
        0
    } else {
        match steps.last() {
            Step::Retarget(_) => 0,
            Step::Poll => 0,
            Step::Tick(_, _) => ticks_since_cleared(steps.drop_last()) + 1,
            Step::FullUpdate(_, _) => ticks_since_cleared(steps.drop_last()),
        }
    }
}

/// Every value that waits for the consumer at any time after a retarget was
/// published after it: no more values wait than ticks have happened since the
/// retarget or since the last poll.
pub proof fn theorem_values_waiting_were_published_after_retarget(
    pre: MonitorState,
    pid: Option<i32>,
    states: Seq<MonitorState>,
    steps: Seq<Step>,
    at: int,
)
    requires
        is_run(states, steps),
        states[0] == pre.retargeted(pid),
        0 <= at < states.len(),
    ensures
        states[at].util_max.len() <= ticks_since_cleared(steps.take(at)),
    decreases at,
{
    if at > 0 {
        theorem_values_waiting_were_published_after_retarget(pre, pid, states, steps, at - 1);
        assert(follows(states[at - 1], steps[at - 1], states[at]));
        assert(steps.take(at).drop_last() =~= steps.take(at - 1));
        assert(steps.take(at).last() == steps[at - 1]);
    }
}

/// The first value published after a retarget, before a full update has
/// taken place, is zero, and it is the only value that waits: whatever the
/// monitor had computed for the process it watched before is gone.
pub proof fn theorem_first_value_after_retarget_is_zero(
    pre: MonitorState,
    pid: i32,
    readings: Seq<ThreadReading>,
    now: u64,
    next: MonitorState,
)
    requires
        pre.retargeted(Some(pid)).published(readings, now, next),
    ensures
        next.util_max == seq![0u64],
        next.latest() == Some(0u64),
{
    assert(next.util_max =~= seq![0u64]);
}

/// A value published after a retarget and one full update is zero or the
/// utilization of a thread of the new process between its reading at the
/// full update and its reading at the tick: no baseline is older than the
/// retarget.
pub proof fn theorem_values_after_retarget_are_new(
    pre: MonitorState,
    pid: i32,
    threads: Seq<ThreadReading>,
    updated_at: u64,
    updated: MonitorState,
    readings: Seq<ThreadReading>,
    now: u64,
    next: MonitorState,
)
    requires
        pre.retargeted(Some(pid)).fully_updated(threads, updated_at, updated),
        updated.published(readings, now, next),
    ensures
        next.util_max.len() > 0,
        next.util_max.last() == 0 || exists|tid: i32|
            listed(threads, tid) && next.util_max.last() == (#[trigger] UsageTracker::fresh(
                tid,
                cputime_of(threads, tid),
                updated_at,
            )).usage(cputime_of(readings, tid), now),
{
    let value = next.util_max.last();
    if value != 0 {
        let tid = choose|tid: i32| #[trigger]
            updated.top.contains_key(tid) && updated.top_usage(readings, now, tid) == value;
        assert(value == UsageTracker::fresh(tid, cputime_of(threads, tid), updated_at).usage(
            cputime_of(readings, tid),
            now,
        ));
    }
}

/// A monitor that was told to watch nothing is silent: no full update is
/// due, a tick changes nothing, and a poll finds nothing, before the tick and
/// after it.
pub proof fn theorem_idle_monitor_is_silent(
    pre: MonitorState,
    readings: Seq<ThreadReading>,
    now: u64,
    next: MonitorState,
)
    requires
        pre.retargeted(None).published(readings, now, next),
    ensures
        !pre.retargeted(None).full_update_due(now),
        pre.retargeted(None).latest() is None,
        next == pre.retargeted(None),
        next.latest() is None,
{
}

/// A tick leaves nothing open: the trackers it leaves behind and the value it
/// publishes are determined by the monitor and the readings.
pub proof fn theorem_tick_is_determined(
    pre: MonitorState,
    readings: Seq<ThreadReading>,
    now: u64,
    one: MonitorState,
    other: MonitorState,
)
    requires
        pre.published(readings, now, one),
        pre.published(readings, now, other),
    ensures
        one == other,
{
    if pre.pid is Some {
        assert(one.top =~= other.top);
        // each of the two values is reached by a thread, and bounds every thread
        let a = one.util_max.last();
        let b = other.util_max.last();
        assert(a <= b);
        assert(b <= a);
        assert(one.util_max =~= one.util_max.drop_last().push(a));
        assert(other.util_max =~= other.util_max.drop_last().push(b));
    }
}

/// A full update leaves open only which of several equally ranked threads
/// are kept for sampling: the trackers of all threads are determined by the
/// readings, and so is the number of threads kept.
pub proof fn theorem_full_update_is_determined_up_to_ties(
    pre: MonitorState,
    readings: Seq<ThreadReading>,
    now: u64,
    one: MonitorState,
    other: MonitorState,
)
    requires
        pre.fully_updated(readings, now, one),
        pre.fully_updated(readings, now, other),
    ensures
        one.all == other.all,
        one.top.len() == other.top.len(),
        one.pid == other.pid,
        one.last_full_update == other.last_full_update,
        one.util_max == other.util_max,
{
    assert forall|tid: i32| one.all.contains_key(tid) == other.all.contains_key(tid) by {
        assert(one.all.contains_key(tid) <==> listed(readings, tid));
    }
    assert(one.all =~= other.all);
}

/// Where no two threads are ranked alike, a full update leaves nothing open:
/// the threads kept for sampling are the highest ranked, and the monitor that
/// results is determined by the monitor before and the readings.
pub proof fn theorem_full_update_is_determined_without_ties(
    pre: MonitorState,
    readings: Seq<ThreadReading>,
    now: u64,
    one: MonitorState,
    other: MonitorState,
)
    requires
        pre.fully_updated(readings, now, one),
        pre.fully_updated(readings, now, other),
        forall|a: i32, b: i32|
            listed(readings, a) && listed(readings, b) && a != b ==> #[trigger] ranking_usage(
                pre.all,
                readings,
                now,
                a,
            ) != #[trigger] ranking_usage(pre.all, readings, now, b),
    ensures
        one == other,
{
    theorem_full_update_is_determined_up_to_ties(pre, readings, now, one, other);
    lemma_same_threads_kept(pre, readings, now, one, other);
    lemma_same_threads_kept(pre, readings, now, other, one);
    assert(one.top =~= other.top);
}

/// Where no two threads are ranked alike, a thread that one full update keeps
/// for sampling is kept by every other full update of the same monitor with
/// the same readings.
proof fn lemma_same_threads_kept(
    pre: MonitorState,
    readings: Seq<ThreadReading>,
    now: u64,
    one: MonitorState,
    other: MonitorState,
)
    requires
        pre.fully_updated(readings, now, one),
        pre.fully_updated(readings, now, other),
        one.all == other.all,
        forall|a: i32, b: i32|
            listed(readings, a) && listed(readings, b) && a != b ==> #[trigger] ranking_usage(
                pre.all,
                readings,
                now,
                a,
            ) != #[trigger] ranking_usage(pre.all, readings, now, b),
    ensures
        one.top.dom().subset_of(other.top.dom()),
{
    if !one.top.dom().subset_of(other.top.dom()) {
        // `one` keeps a thread `x` that `other` leaves out; both keep equally
        // many, so `other` keeps a thread `y` that `one` leaves out
        let x = choose|x: i32| one.top.dom().contains(x) && !other.top.dom().contains(x);
        if other.top.dom().subset_of(one.top.dom()) {
            vstd::set_lib::lemma_subset_equality(other.top.dom(), one.top.dom());
        }
        let y = choose|y: i32| other.top.dom().contains(y) && !one.top.dom().contains(y);
        // then each of the two was ranked at least as high as the other
        let of_x = ranking_usage(pre.all, readings, now, x);
        let of_y = ranking_usage(pre.all, readings, now, y);
        assert(of_x >= of_y);
        assert(of_y >= of_x);
    }
}

/// A thread that is read at two full updates in a row is ranked at the second
/// by what it consumed since the first, not since it was first seen: the CPU
/// time between the two readings over the time between the two updates.
pub proof fn theorem_tracker_continuity(
    pre: MonitorState,
    first: Seq<ThreadReading>,
    first_at: u64,
    between: MonitorState,
    second: Seq<ThreadReading>,
    second_at: u64,
    tid: i32,
)
    requires
        pre.fully_updated(first, first_at, between),
        listed(first, tid),
    ensures
        ranking_usage(between.all, second, second_at, tid) == UsageTracker::fresh(
            tid,
            cputime_of(first, tid),
            first_at,
        ).usage(cputime_of(second, tid), second_at),
        second_at > first_at && cputime_of(second, tid) > cputime_of(first, tid) ==> ranking_usage(
            between.all,
            second,
            second_at,
            tid,
        ) == (cputime_of(second, tid) - cputime_of(first, tid)) / (second_at - first_at),
{
    let delta = cputime_of(second, tid) - cputime_of(first, tid);
    let elapsed = second_at - first_at;
    if elapsed > 0 && delta > 0 {
        assert(0 <= delta / elapsed <= delta) by (nonlinear_arith)
            requires
                delta > 0,
                elapsed > 0,
        ;
    }
}

/// Ticks between two full updates leave the trackers of all threads alone, so
/// that the next full update still ranks by what was consumed since the last.
pub proof fn theorem_ticks_keep_baselines(
    pre: MonitorState,
    readings: Seq<ThreadReading>,
    now: u64,
    next: MonitorState,
)
    requires
        pre.published(readings, now, next),
    ensures
        next.all == pre.all,
        next.last_full_update == pre.last_full_update,
        next.pid == pre.pid,
{
}

/// A thread that is not read at a full update is tracked no longer, neither
/// among all threads nor among the busiest.
pub proof fn theorem_unread_threads_are_evicted(
    pre: MonitorState,
    readings: Seq<ThreadReading>,
    now: u64,
    next: MonitorState,
    tid: i32,
)
    requires
        pre.fully_updated(readings, now, next),
        !listed(readings, tid),
    ensures
        !next.all.contains_key(tid),
        !next.top.contains_key(tid),
{
    if next.top.contains_key(tid) {
        assert(next.all.dom().contains(tid));
    }
}

/// After a full update the threads kept for sampling are as many as were
/// read, up to `TOP_THREADS`, all of them were read, and each of them was
/// ranked at least as high as every thread that was read and left out. Among
/// equally ranked threads any may have been kept.
pub proof fn theorem_busiest_threads_are_kept(
    pre: MonitorState,
    readings: Seq<ThreadReading>,
    now: u64,
    next: MonitorState,
)
    requires
        pre.fully_updated(readings, now, next),
    ensures
        next.top.len() == if next.all.len() < TOP_THREADS {
            next.all.len()
        } else {
            TOP_THREADS as nat
        },
        forall|tid: i32| next.all.contains_key(tid) <==> listed(readings, tid),
        forall|tid: i32| next.top.contains_key(tid) ==> listed(readings, tid),
        next.all.len() <= TOP_THREADS ==> forall|tid: i32|
            listed(readings, tid) ==> next.top.contains_key(tid),
        forall|kept: i32, left: i32|
            next.top.contains_key(kept) && listed(readings, left) && !next.top.contains_key(left)
                ==> #[trigger] ranking_usage(pre.all, readings, now, kept) >= #[trigger] ranking_usage(
                pre.all,
                readings,
                now,
                left,
            ),
{
    assert forall|tid: i32| next.top.contains_key(tid) implies listed(readings, tid) by {
        assert(next.all.dom().contains(tid));
    }
    if next.all.len() <= TOP_THREADS {
        vstd::set_lib::lemma_subset_equality(next.top.dom(), next.all.dom());
        assert forall|tid: i32| listed(readings, tid) implies next.top.contains_key(tid) by {
            assert(next.all.contains_key(tid));
        }
    }
    assert forall|kept: i32, left: i32|
        next.top.contains_key(kept) && listed(readings, left) && !next.top.contains_key(
            left,
        ) implies #[trigger] ranking_usage(pre.all, readings, now, kept) >= #[trigger] ranking_usage(
        pre.all,
        readings,
        now,
        left,
    ) by {
        assert(next.all.contains_key(left));
    }
}

} // verus!
