//! The rate estimator kept for one thread.

use vstd::prelude::*;

verus! {

/// Baseline of one thread: the cumulative CPU time last seen and the instant,
/// in nanoseconds of a monotonic clock, at which it was seen.
#[derive(Debug, Clone, Copy, PartialEq, Eq, Structural)]
pub struct UsageTracker {
    pub tid: i32,
    pub last_cputime: u64,
    pub read_timer: u64,
}

impl UsageTracker {
    /// The tracker that `new` builds.
    pub open spec fn fresh(tid: i32, cputime: u64, now: u64) -> UsageTracker {
        UsageTracker { tid, last_cputime: cputime, read_timer: now }
    }

    /// CPU nanoseconds consumed per nanosecond of wall time between the
    /// baseline and the reading `(cputime, now)`, rounded down. A clock that
    /// did not advance, or a counter that did not grow, gives zero.
    pub open spec fn usage(self, cputime: u64, now: u64) -> u64 {
        if now <= self.read_timer || cputime <= self.last_cputime {
            0
        } else {
            ((cputime - self.last_cputime) / (now - self.read_timer)) as u64
        }
    }

    /// The tracker after it has taken `(cputime, now)` as its new baseline.
    pub open spec fn rebased(self, cputime: u64, now: u64) -> UsageTracker {
        UsageTracker { tid: self.tid, last_cputime: cputime, read_timer: now }
    }

    /// Starts tracking thread `tid` from the reading `cputime` taken at `now`.
    pub fn new(tid: i32, cputime: u64, now: u64) -> (tracker: UsageTracker)
        ensures
            tracker == Self::fresh(tid, cputime, now),
    {
        UsageTracker { tid, last_cputime: cputime, read_timer: now }
    }

    /// The utilization that a sample reports is that since the sample before
    /// it, whatever the tracker had seen earlier: the CPU time between the two
    /// readings over the time between them. A second sample at the same
    /// instant reports zero.
    pub proof fn theorem_usage_is_since_last_sample(
        self,
        cputime: u64,
        now: u64,
        next_cputime: u64,
        next_now: u64,
    )
        ensures
            self.rebased(cputime, now).usage(next_cputime, next_now) == Self::fresh(
                self.tid,
                cputime,
                now,
            ).usage(next_cputime, next_now),
            next_now > now && next_cputime > cputime ==> self.rebased(cputime, now).usage(
                next_cputime,
                next_now,
            ) == (next_cputime - cputime) / (next_now - now),
            next_now <= now ==> self.rebased(cputime, now).usage(next_cputime, next_now) == 0,
    {
        let delta = next_cputime - cputime;
        let elapsed = next_now - now;
        if elapsed > 0 && delta > 0 {
            assert(0 <= delta / elapsed <= delta) by (nonlinear_arith)
                requires
                    delta > 0,
                    elapsed > 0,
            ;
        }
    }

    /// Takes a new reading: returns the tracker rebased on it, and the
    /// utilization since the previous baseline.
    pub fn try_calculate(self, cputime: u64, now: u64) -> (sampled: (UsageTracker, u64))
        ensures
            sampled.0 == self.rebased(cputime, now),
            sampled.1 == self.usage(cputime, now),
    {
        let usage: u64 = if now <= self.read_timer || cputime <= self.last_cputime {
            0
        } else {
            (cputime - self.last_cputime) / (now - self.read_timer)
        };
        (UsageTracker { tid: self.tid, last_cputime: cputime, read_timer: now }, usage)
    }
}

} // verus!
