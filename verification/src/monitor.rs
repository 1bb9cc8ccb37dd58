//! The monitor's state machine.
//!
//! A monitor is idle or watches one process. While it watches, it keeps a
//! tracker for every thread seen at the last full update and, beside them, the
//! trackers of the few busiest threads, which are sampled at every tick. The
//! worker that owns the monitor reads the kernel's counters and the clock and
//! passes them in; the monitor decides what is kept and what is published.

use vstd::prelude::*;

use crate::population::{is_listing, lookup, trackers, Population};
use crate::ranking::{lemma_reordering_keeps_distinct_tids, sort_by_usage};
use crate::readings::{cputime, cputime_of, listed, ThreadReading};
use crate::selection::{keep_top, lemma_busiest_are_kept, rank_threads};
use crate::tracker::UsageTracker;

verus! {

/// How many of the busiest threads are sampled at every tick.
pub const TOP_THREADS: usize = 5;

/// Nanoseconds that pass between two full updates.
pub const FULL_UPDATE_INTERVAL: u64 = 1_000_000_000;

/// Every tracker of `held` is filed under its own thread id.
pub open spec fn filed_by_tid(held: Map<i32, UsageTracker>) -> bool {
    forall|tid: i32| #[trigger] held.contains_key(tid) ==> held[tid].tid == tid
}

/// The utilization by which thread `tid` is ranked at a full update, when
/// `all` are the trackers kept until then: that since its tracker's
/// baseline, and zero for a thread without a tracker.
pub open spec fn ranking_usage(
    all: Map<i32, UsageTracker>,
    readings: Seq<ThreadReading>,
    now: u64,
    tid: i32,
) -> u64 {
    if all.contains_key(tid) {
        all[tid].usage(cputime_of(readings, tid), now)
    } else {
        0
    }
}

/// The monitor as contracts see it.
pub struct MonitorState {
    /// The process that is watched, if any.
    pub pid: Option<i32>,
    /// When the threads of the process were last enumerated.
    pub last_full_update: u64,
    /// The tracker of every thread seen at the last full update.
    pub all: Map<i32, UsageTracker>,
    /// The trackers of the busiest threads.
    pub top: Map<i32, UsageTracker>,
    /// The values published for the present target since the consumer last
    /// polled, oldest first.
    pub util_max: Seq<u64>,
}

impl MonitorState {
    /// A monitor that was started at `now`: idle, with nothing tracked and
    /// nothing published.
    pub open spec fn initial(now: u64) -> MonitorState {
        MonitorState {
            pid: None,
            last_full_update: now,
            all: Map::empty(),
            top: Map::empty(),
            util_max: Seq::empty(),
        }
    }

    /// What every monitor satisfies: both populations are finite, the busiest
    /// threads are among the tracked ones and at most `TOP_THREADS` many,
    /// every tracker is filed under its own thread id, and an idle monitor
    /// tracks nothing.
    pub open spec fn wf(self) -> bool {
        &&& self.all.dom().finite()
        &&& self.top.dom().finite()
        &&& self.top.dom().subset_of(self.all.dom())
        &&& self.top.len() <= TOP_THREADS
        &&& filed_by_tid(self.all)
        &&& filed_by_tid(self.top)
        &&& self.pid is None ==> forall|tid: i32| !#[trigger] self.all.contains_key(tid)
    }

    /// The monitor after it was told to watch `pid`, or nothing: every tracker
    /// is gone, whatever the target was before, and so is every value that
    /// was published for it and not yet polled. Only the time of the last
    /// full update is kept.
    pub open spec fn retargeted(self, pid: Option<i32>) -> MonitorState {
        MonitorState {
            pid,
            last_full_update: self.last_full_update,
            all: Map::empty(),
            top: Map::empty(),
            util_max: Seq::empty(),
        }
    }

    /// Whether a full update is due at `now`: a process is watched and the
    /// last full update lies at least `FULL_UPDATE_INTERVAL` back.
    pub open spec fn full_update_due(self, now: u64) -> bool {
        self.pid is Some && now - self.last_full_update >= FULL_UPDATE_INTERVAL
    }

    /// `next` is the monitor after a full update with `readings` taken at
    /// `now`. Exactly the threads read are tracked, each rebased on its
    /// reading. The busiest `TOP_THREADS` of them, or all if they are fewer,
    /// are kept for sampling: none that is left out was ranked higher than one
    /// that is kept. One that was kept before keeps its tracker, a newcomer
    /// starts from its reading. Which of several equally ranked threads is
    /// kept is left open.
    pub open spec fn fully_updated(
        self,
        readings: Seq<ThreadReading>,
        now: u64,
        next: MonitorState,
    ) -> bool {
        &&& next.pid == self.pid
        &&& next.util_max == self.util_max
        &&& next.last_full_update == now
        &&& next.all.dom().finite()
        &&& forall|tid: i32| #[trigger] next.all.contains_key(tid) <==> listed(readings, tid)
        &&& forall|tid: i32| #[trigger]
            next.all.contains_key(tid) ==> next.all[tid] == UsageTracker::fresh(
                tid,
                cputime_of(readings, tid),
                now,
            )
        &&& next.top.dom().finite()
        &&& next.top.dom().subset_of(next.all.dom())
        &&& next.top.len() == if next.all.len() < TOP_THREADS {
            next.all.len()
        } else {
            TOP_THREADS as nat
        }
        &&& forall|kept: i32, left: i32|
            #![trigger next.top.contains_key(kept), next.all.contains_key(left)]
            next.top.contains_key(kept) && next.all.contains_key(left) && !next.top.contains_key(
                left,
            ) ==> ranking_usage(self.all, readings, now, kept) >= ranking_usage(
                self.all,
                readings,
                now,
                left,
            )
        &&& forall|tid: i32| #[trigger]
            next.top.contains_key(tid) ==> next.top[tid] == if self.top.contains_key(tid) {
                self.top[tid]
            } else {
                UsageTracker::fresh(tid, cputime_of(readings, tid), now)
            }
    }

    /// The utilization of the busiest thread `tid` at a tick with `readings`
    /// taken at `now`.
    pub open spec fn top_usage(self, readings: Seq<ThreadReading>, now: u64, tid: i32) -> u64 {
        self.top[tid].usage(cputime_of(readings, tid), now)
    }

    /// `max` is the highest utilization among the busiest threads at a tick
    /// with `readings` taken at `now`, and zero when there is no such thread.
    pub open spec fn is_max_usage(self, readings: Seq<ThreadReading>, now: u64, max: u64) -> bool {
        &&& forall|tid: i32| #[trigger]
            self.top.contains_key(tid) ==> self.top_usage(readings, now, tid) <= max
        &&& max == 0 || exists|tid: i32| #[trigger]
            self.top.contains_key(tid) && self.top_usage(readings, now, tid) == max
    }

    /// `next` is the monitor after a tick with `readings` taken at `now`. An
    /// idle monitor stays as it is. One that watches a process rebases each of
    /// the busiest threads on its reading and publishes the highest
    /// utilization among them.
    pub open spec fn published(
        self,
        readings: Seq<ThreadReading>,
        now: u64,
        next: MonitorState,
    ) -> bool {
        if self.pid is None {
            next == self
        } else {
            &&& next.pid == self.pid
            &&& next.last_full_update == self.last_full_update
            &&& next.all == self.all
            &&& next.top.dom() == self.top.dom()
            &&& forall|tid: i32| #[trigger]
                next.top.contains_key(tid) ==> next.top[tid] == self.top[tid].rebased(
                    cputime_of(readings, tid),
                    now,
                )
            &&& next.util_max.len() == self.util_max.len() + 1
            &&& next.util_max.drop_last() == self.util_max
            &&& self.is_max_usage(readings, now, next.util_max.last())
        }
    }

    /// The value that a poll hands out: the newest published one.
    pub open spec fn latest(self) -> Option<u64> {
        if self.util_max.len() == 0 {
            None
        } else {
            Some(self.util_max.last())
        }
    }

    /// The monitor after a poll: nothing is left to hand out.
    pub open spec fn polled(self) -> MonitorState {
        MonitorState { util_max: Seq::empty(), ..self }
    }
}

/// The state of the sampler for one process at a time.
pub struct ProcessMonitor {
    current_pid: Option<i32>,
    last_full_update: u64,
    all_trackers: Population,
    top_trackers: Population,
    util_max: Vec<u64>,
}

impl View for ProcessMonitor {
    type V = MonitorState;

    closed spec fn view(&self) -> MonitorState {
        MonitorState {
            pid: self.current_pid,
            last_full_update: self.last_full_update,
            all: trackers(self.all_trackers),
            top: trackers(self.top_trackers),
            util_max: self.util_max@,
        }
    }
}

impl ProcessMonitor {
    /// An idle monitor, started at `now`.
    pub fn new(now: u64) -> (monitor: ProcessMonitor)
        ensures
            monitor@ == MonitorState::initial(now),
            monitor@.wf(),
    {
        ProcessMonitor {
            current_pid: None,
            last_full_update: now,
            all_trackers: Population::new(),
            top_trackers: Population::new(),
            util_max: Vec::new(),
        }
    }

    /// Watches `pid` from now on, or nothing. All trackers are dropped, also
    /// when `pid` is the process that was watched already, and with them the
    /// values that wait for the consumer: a poll that follows finds nothing
    /// until a value has been published for the new target.
    pub fn set_pid(&mut self, pid: Option<i32>)
        ensures
            final(self)@ == old(self)@.retargeted(pid),
            final(self)@.latest() is None,
            final(self)@.wf(),
    {
        self.current_pid = pid;
        self.all_trackers.clear();
        self.top_trackers.clear();
        self.util_max.clear();
    }

    /// Hands out the newest value published since the last poll, if there is
    /// one, and forgets the older ones.
    pub fn update_util_max(&mut self) -> (latest: Option<u64>)
        requires
            old(self)@.wf(),
        ensures
            latest == old(self)@.latest(),
            final(self)@ == old(self)@.polled(),
            final(self)@.wf(),
    {
        let latest = match self.util_max.last() {
            Some(value) => Some(*value),
            None => None,
        };
        self.util_max.clear();
        latest
    }

    /// Whether the worker should enumerate the threads of the process now.
    pub fn needs_full_update(&self, now: u64) -> (due: bool)
        ensures
            due == self@.full_update_due(now),
    {
        self.current_pid.is_some() && now >= self.last_full_update && now - self.last_full_update
            >= FULL_UPDATE_INTERVAL
    }

    /// A full update, if one is due at `now`: `threads` holds a reading of
    /// every thread of the watched process, or nothing if the process could
    /// not be enumerated. Threads that are no longer read lose their
    /// trackers, the others are ranked and rebased, and the busiest are kept
    /// for sampling. Where no update is due or the enumeration failed, the
    /// monitor stays as it is, so that the next call tries again.
    pub fn full_update(&mut self, threads: Option<&Vec<ThreadReading>>, now: u64)
        requires
            old(self)@.wf(),
        ensures
            final(self)@.wf(),
            threads is Some && old(self)@.full_update_due(now) ==> old(self)@.fully_updated(
                threads.unwrap()@,
                now,
                final(self)@,
            ),
            threads is None || !old(self)@.full_update_due(now) ==> final(self)@ == old(self)@,
    {
        let readings = match threads {
            Some(readings) => readings,
            None => {
                return ;
            },
        };
        if !self.needs_full_update(now) {
            return ;
        }
        let ghost pre = self@;
        let (rebuilt, ranked) = rank_threads(&mut self.all_trackers, readings, now);
        self.all_trackers = rebuilt;
        let mut busiest = sort_by_usage(&ranked);
        let ghost sorted = busiest@;
        busiest.truncate(TOP_THREADS);
        proof {
            lemma_reordering_keeps_distinct_tids(ranked@, sorted);
            assert(busiest@ =~= sorted.take(
                if sorted.len() < TOP_THREADS {
                    sorted.len() as int
                } else {
                    TOP_THREADS as int
                },
            ));
        }
        let kept = keep_top(&mut self.top_trackers, &busiest, now);
        self.top_trackers = kept;
        self.last_full_update = now;
        proof {
            lemma_busiest_are_kept(pre, readings@, now, self@, ranked@, sorted, busiest@);
        }
    }

    /// One tick. While a process is watched, samples each of the busiest
    /// threads with its reading taken at `now` and publishes the highest
    /// utilization among them, which is zero when there is no such thread. An
    /// idle monitor publishes nothing.
    pub fn publish(&mut self, readings: &Vec<ThreadReading>, now: u64)
        requires
            old(self)@.wf(),
        ensures
            final(self)@.wf(),
            old(self)@.published(readings@, now, final(self)@),
    {
        if self.current_pid.is_none() {
            return ;
        }
        let ghost pre = self@;
        let entries = self.top_trackers.entries();
        let mut max_usage: u64 = 0;
        let mut i: usize = 0;
        while i < entries.len()
            invariant
                0 <= i <= entries.len(),
                is_listing(entries@, pre.top),
                self@.pid == pre.pid,
                self@.last_full_update == pre.last_full_update,
                self@.all == pre.all,
                self@.util_max == pre.util_max,
                self@.top.dom() == pre.top.dom(),
                forall|k: int|
                    0 <= k < i ==> self@.top[(#[trigger] entries@[k]).0]
                        == pre.top[entries@[k].0].rebased(
                        cputime_of(readings@, entries@[k].0),
                        now,
                    ),
                forall|k: int|
                    i <= k < entries.len() ==> self@.top[(#[trigger] entries@[k]).0]
                        == pre.top[entries@[k].0],
                forall|k: int|
                    0 <= k < i ==> pre.top_usage(readings@, now, (#[trigger] entries@[k]).0)
                        <= max_usage,
                max_usage == 0 || exists|k: int|
                    0 <= k < i && pre.top_usage(readings@, now, (#[trigger] entries@[k]).0)
                        == max_usage,
            decreases entries.len() - i,
        {
            let (tid, tracker) = entries[i];
            let (rebased, usage) = tracker.try_calculate(cputime(readings, tid), now);
            self.top_trackers.insert(tid, rebased);
            if usage > max_usage {
                max_usage = usage;
            }
            i += 1;
        }
        self.util_max.push(max_usage);
        proof {
            assert(self@.util_max.drop_last() =~= pre.util_max);
            assert forall|tid: i32| #[trigger] pre.top.contains_key(tid) implies self@.top[tid]
                == pre.top[tid].rebased(cputime_of(readings@, tid), now) && pre.top_usage(
                readings@,
                now,
                tid,
            ) <= max_usage by {
                let k = choose|k: int| 0 <= k < entries@.len() && (#[trigger] entries@[k]).0 == tid;
                assert(entries@[k].0 == tid);
            }
            if max_usage != 0 {
                let k = choose|k: int|
                    0 <= k < entries@.len() && pre.top_usage(
                        readings@,
                        now,
                        (#[trigger] entries@[k]).0,
                    ) == max_usage;
                assert(pre.top.contains_key(entries@[k].0));
            }
        }
    }

    /// The process that is watched, if any.
    pub fn pid(&self) -> (pid: Option<i32>)
        ensures
            pid == self@.pid,
    {
        self.current_pid
    }

    /// The tracker kept for thread `tid` since the last full update, if the
    /// thread was read then.
    pub fn tracker(&self, tid: i32) -> (found: Option<UsageTracker>)
        ensures
            found == lookup(self@.all, tid),
    {
        self.all_trackers.get(tid)
    }

    /// The tracker of thread `tid`, if the thread is one of the busiest.
    pub fn top_tracker(&self, tid: i32) -> (found: Option<UsageTracker>)
        ensures
            found == lookup(self@.top, tid),
    {
        self.top_trackers.get(tid)
    }

    /// The ids of the busiest threads, each once, in no particular order.
    /// These are the threads to read before the next tick.
    pub fn top_threads(&self) -> (tids: Vec<i32>)
        ensures
            tids@.no_duplicates(),
            forall|tid: i32| tids@.contains(tid) <==> self@.top.contains_key(tid),
    {
        let entries = self.top_trackers.entries();
        let mut tids: Vec<i32> = Vec::new();
        let mut i: usize = 0;
        while i < entries.len()
            invariant
                0 <= i <= entries.len(),
                tids.len() == i,
                forall|k: int| 0 <= k < i ==> tids@[k] == (#[trigger] entries@[k]).0,
            decreases entries.len() - i,
        {
            tids.push(entries[i].0);
            i += 1;
        }
        proof {
            assert forall|a: int, b: int| 0 <= a < b < tids@.len() implies tids@[a] != tids@[b] by {
                assert(entries@[a].0 != entries@[b].0);
            }
            assert forall|tid: i32| tids@.contains(tid) <==> self@.top.contains_key(tid) by {
                if tids@.contains(tid) {
                    let k = choose|k: int| 0 <= k < tids@.len() && tids@[k] == tid;
                    assert(self@.top.contains_pair(entries@[k].0, entries@[k].1));
                }
                if self@.top.contains_key(tid) {
                    let k = choose|k: int|
                        0 <= k < entries@.len() && (#[trigger] entries@[k]).0 == tid;
                    assert(tids@[k] == tid);
                }
            }
        }
        tids
    }
}

} // verus!
