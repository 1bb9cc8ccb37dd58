//! The two passes of a full update: ranking the threads that were read, and
//! keeping the busiest of them.

use vstd::prelude::*;

use crate::monitor::{filed_by_tid, ranking_usage, MonitorState, TOP_THREADS};
use crate::population::{lookup, trackers, Population};
use crate::ranking::{has_distinct_tids, is_descending, lemma_same_entries, RankedThread};
use crate::readings::{cputime_of, lemma_cputime_of_first, listed, ThreadReading};
use crate::tracker::UsageTracker;

verus! {

/// `threads` holds the thread `tid`.
pub(crate) open spec fn ranks(threads: Seq<RankedThread>, tid: i32) -> bool {
    exists|k: int| 0 <= k < threads.len() && (#[trigger] threads[k]).reading.tid == tid
}

/// Every entry of `ranked` is of a thread that was read, and carries the
/// reading that counts for it and the utilization by which it is ranked.
pub(crate) open spec fn ranked_by(
    ranked: Seq<RankedThread>,
    all: Map<i32, UsageTracker>,
    readings: Seq<ThreadReading>,
    now: u64,
) -> bool {
    forall|k: int|
        0 <= k < ranked.len() ==> {
            let tid = (#[trigger] ranked[k]).reading.tid;
            &&& listed(readings, tid)
            &&& ranked[k].reading.cputime == cputime_of(readings, tid)
            &&& ranked[k].usage == ranking_usage(all, readings, now, tid)
        }
}

/// `rebuilt` tracks exactly the threads among the first `n` readings, each
/// from the reading that counts for it.
pub(crate) open spec fn rebuilt_from(
    rebuilt: Map<i32, UsageTracker>,
    readings: Seq<ThreadReading>,
    n: int,
    now: u64,
) -> bool {
    &&& rebuilt.dom().finite()
    &&& forall|tid: i32| #[trigger] rebuilt.contains_key(tid) <==> listed(readings.take(n), tid)
    &&& forall|tid: i32| #[trigger]
        rebuilt.contains_key(tid) ==> rebuilt[tid] == UsageTracker::fresh(
            tid,
            cputime_of(readings, tid),
            now,
        )
}

/// `kept` holds a tracker for each thread of `busiest` and for no other: the
/// one that `top` held for it, or one that starts from the thread's reading.
pub(crate) open spec fn kept_from(
    kept: Map<i32, UsageTracker>,
    top: Map<i32, UsageTracker>,
    busiest: Seq<RankedThread>,
    now: u64,
) -> bool {
    &&& kept.dom().finite()
    &&& kept.len() == busiest.len()
    &&& forall|tid: i32| #[trigger] kept.contains_key(tid) <==> ranks(busiest, tid)
    &&& forall|k: int|
        0 <= k < busiest.len() ==> {
            let tid = (#[trigger] busiest[k]).reading.tid;
            kept[tid] == if top.contains_key(tid) {
                top[tid]
            } else {
                UsageTracker::fresh(tid, busiest[k].reading.cputime, now)
            }
        }
}

/// A thread is read by a sequence of readings with one more at its end when
/// it is read by the sequence or by that one.
proof fn lemma_listed_push(readings: Seq<ThreadReading>, last: ThreadReading, tid: i32)
    ensures
        listed(readings.push(last), tid) <==> listed(readings, tid) || last.tid == tid,
{
    let longer = readings.push(last);
    if listed(readings, tid) {
        let i = choose|i: int| 0 <= i < readings.len() && (#[trigger] readings[i]).tid == tid;
        assert(longer[i].tid == tid);
    }
    if last.tid == tid {
        assert(longer[readings.len() as int].tid == tid);
    }
    if listed(longer, tid) && last.tid != tid {
        let i = choose|i: int| 0 <= i < longer.len() && (#[trigger] longer[i]).tid == tid;
        assert(readings[i].tid == tid);
    }
}

/// A thread is held by a sequence with one more entry at its end when it is
/// held by the sequence or is the thread of that entry.
proof fn lemma_ranks_push(threads: Seq<RankedThread>, last: RankedThread, tid: i32)
    ensures
        ranks(threads.push(last), tid) <==> ranks(threads, tid) || last.reading.tid == tid,
{
    let longer = threads.push(last);
    if ranks(threads, tid) {
        let k = choose|k: int| 0 <= k < threads.len() && (#[trigger] threads[k]).reading.tid == tid;
        assert(longer[k].reading.tid == tid);
    }
    if last.reading.tid == tid {
        assert(longer[threads.len() as int].reading.tid == tid);
    }
    if ranks(longer, tid) && last.reading.tid != tid {
        let k = choose|k: int| 0 <= k < longer.len() && (#[trigger] longer[k]).reading.tid == tid;
        assert(threads[k].reading.tid == tid);
    }
}

/// Moves the trackers of the threads read from `all` into a new population,
/// starting one for each thread that had none, ranks every thread by its
/// utilization since its tracker's baseline, and rebases the tracker on the
/// reading. Of several readings of one thread the first counts.
pub(crate) fn rank_threads(all: &mut Population, readings: &Vec<ThreadReading>, now: u64) -> (out: (
    Population,
    Vec<RankedThread>,
))
    requires
        filed_by_tid(trackers(*old(all))),
    ensures
        rebuilt_from(trackers(out.0), readings@, readings@.len() as int, now),
        trackers(out.0).len() == out.1.len(),
        has_distinct_tids(out.1@),
        ranked_by(out.1@, trackers(*old(all)), readings@, now),
        forall|tid: i32| #[trigger] trackers(out.0).contains_key(tid) <==> ranks(out.1@, tid),
{
    let ghost held = trackers(*all);
    let mut rebuilt = Population::new();
    let mut ranked: Vec<RankedThread> = Vec::new();
    let mut i: usize = 0;
    while i < readings.len()
        invariant
            0 <= i <= readings.len(),
            filed_by_tid(held),
            rebuilt_from(trackers(rebuilt), readings@, i as int, now),
            trackers(rebuilt).len() == ranked.len(),
            has_distinct_tids(ranked@),
            ranked_by(ranked@, held, readings@, now),
            forall|tid: i32| #[trigger]
                trackers(rebuilt).contains_key(tid) <==> ranks(ranked@, tid),
            forall|tid: i32|
                !trackers(rebuilt).contains_key(tid) ==> lookup(trackers(*all), tid) == lookup(
                    held,
                    tid,
                ),
        decreases readings.len() - i,
    {
        let reading = readings[i];
        let tid = reading.tid;
        let ghost before = ranked@;
        proof {
            assert(readings@.take(i + 1) =~= readings@.take(i as int).push(reading));
            assert forall|t: i32|
                listed(readings@.take(i + 1), t) <==> listed(readings@.take(i as int), t) || tid
                    == t by {
                lemma_listed_push(readings@.take(i as int), reading, t);
            }
        }
        if rebuilt.get(tid).is_none() {
            proof {
                assert forall|j: int| 0 <= j < i implies (#[trigger] readings@[j]).tid != tid by {
                    assert(readings@.take(i as int)[j] == readings@[j]);
                }
                lemma_cputime_of_first(readings@, tid, i as int);
                assert(lookup(trackers(*all), tid) == lookup(held, tid));
            }
            let tracker = match all.remove(tid) {
                Some(tracker) => tracker,
                None => UsageTracker::new(tid, reading.cputime, now),
            };
            let (rebased, usage) = tracker.try_calculate(reading.cputime, now);
            rebuilt.insert(tid, rebased);
            ranked.push(RankedThread { reading, usage });
            proof {
                assert forall|t: i32| ranks(ranked@, t) <==> ranks(before, t) || tid == t by {
                    lemma_ranks_push(before, RankedThread { reading, usage }, t);
                }
                assert forall|k: int| 0 <= k < before.len() implies #[trigger] ranked@[k]
                    == before[k] by {}
            }
        }
        i += 1;
    }
    (rebuilt, ranked)
}

/// Moves the trackers of the threads of `busiest` from `top` into a new
/// population, starting one for each thread that had none.
pub(crate) fn keep_top(top: &mut Population, busiest: &Vec<RankedThread>, now: u64) -> (kept:
    Population)
    requires
        has_distinct_tids(busiest@),
    ensures
        kept_from(trackers(kept), trackers(*old(top)), busiest@, now),
{
    let ghost held = trackers(*top);
    let mut kept = Population::new();
    let mut i: usize = 0;
    while i < busiest.len()
        invariant
            0 <= i <= busiest.len(),
            has_distinct_tids(busiest@),
            kept_from(trackers(kept), held, busiest@.take(i as int), now),
            forall|tid: i32|
                !trackers(kept).contains_key(tid) ==> lookup(trackers(*top), tid) == lookup(
                    held,
                    tid,
                ),
        decreases busiest.len() - i,
    {
        let thread = busiest[i];
        let tid = thread.reading.tid;
        let ghost done = busiest@.take(i as int);
        let ghost next = busiest@.take(i + 1);
        proof {
            assert(next =~= done.push(thread));
            assert forall|t: i32| ranks(next, t) <==> ranks(done, t) || tid == t by {
                lemma_ranks_push(done, thread, t);
            }
            assert(lookup(trackers(*top), tid) == lookup(held, tid));
        }
        let tracker = match top.remove(tid) {
            Some(tracker) => tracker,
            None => UsageTracker::new(tid, thread.reading.cputime, now),
        };
        kept.insert(tid, tracker);
        proof {
            assert forall|k: int| 0 <= k < next.len() implies {
                let t = (#[trigger] next[k]).reading.tid;
                trackers(kept)[t] == if held.contains_key(t) {
                    held[t]
                } else {
                    UsageTracker::fresh(t, next[k].reading.cputime, now)
                }
            } by {}
        }
        i += 1;
    }
    proof {
        assert(busiest@.take(busiest.len() as int) =~= busiest@);
    }
    kept
}

/// What a full update leaves behind is what `fully_updated` asks for, when the
/// threads were ranked, ordered and cut as `full_update` does it.
pub(crate) proof fn lemma_busiest_are_kept(
    pre: MonitorState,
    readings: Seq<ThreadReading>,
    now: u64,
    next: MonitorState,
    ranked: Seq<RankedThread>,
    sorted: Seq<RankedThread>,
    busiest: Seq<RankedThread>,
)
    requires
        pre.wf(),
        pre.pid is Some,
        next.pid == pre.pid,
        next.util_max == pre.util_max,
        next.last_full_update == now,
        rebuilt_from(next.all, readings, readings.len() as int, now),
        next.all.len() == ranked.len(),
        has_distinct_tids(ranked),
        ranked_by(ranked, pre.all, readings, now),
        forall|tid: i32| #[trigger] next.all.contains_key(tid) <==> ranks(ranked, tid),
        sorted.to_multiset() == ranked.to_multiset(),
        is_descending(sorted),
        has_distinct_tids(sorted),
        busiest == sorted.take(
            if sorted.len() < TOP_THREADS {
                sorted.len() as int
            } else {
                TOP_THREADS as int
            },
        ),
        kept_from(next.top, pre.top, busiest, now),
    ensures
        next.wf(),
        pre.fully_updated(readings, now, next),
{
    lemma_same_entries(sorted, ranked);
    lemma_same_entries(ranked, sorted);
    assert(readings.take(readings.len() as int) =~= readings);
    assert forall|k: int| 0 <= k < sorted.len() implies {
        let tid = (#[trigger] sorted[k]).reading.tid;
        &&& listed(readings, tid)
        &&& sorted[k].reading.cputime == cputime_of(readings, tid)
        &&& sorted[k].usage == ranking_usage(pre.all, readings, now, tid)
    } by {
        assert(ranked.contains(sorted[k]));
    }
    assert forall|tid: i32| #[trigger] next.top.contains_key(tid) implies next.all.contains_key(
        tid,
    ) && next.top[tid] == (if pre.top.contains_key(tid) {
        pre.top[tid]
    } else {
        UsageTracker::fresh(tid, cputime_of(readings, tid), now)
    }) by {
        assert(ranks(busiest, tid));
    }
    assert forall|kept: i32, left: i32|
        next.top.contains_key(kept) && next.all.contains_key(left) && !next.top.contains_key(
            left,
        ) implies ranking_usage(pre.all, readings, now, kept) >= ranking_usage(
        pre.all,
        readings,
        now,
        left,
    ) by {
        // `kept` stands among the first entries of `sorted`, `left` behind them
        let a = choose|a: int|
            0 <= a < busiest.len() && (#[trigger] busiest[a]).reading.tid == kept;
        let p = choose|p: int| 0 <= p < ranked.len() && (#[trigger] ranked[p]).reading.tid == left;
        let q = choose|q: int| 0 <= q < sorted.len() && sorted[q] == ranked[p];
        if q < busiest.len() {
            assert(busiest[q].reading.tid == left);
        }
        assert(sorted[a].usage >= sorted[q].usage);
    }
}

} // verus!
