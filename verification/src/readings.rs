//! Readings taken from the threads of the watched process at one instant.

use vstd::prelude::*;

verus! {

/// One observation of a thread: its id and its cumulative on-CPU time in
/// nanoseconds, as the kernel reported it.
#[derive(Debug, Clone, Copy, PartialEq, Eq, Structural)]
pub struct ThreadReading {
    pub tid: i32,
    pub cputime: u64,
}

/// Whether some reading is of thread `tid`.
pub open spec fn listed(readings: Seq<ThreadReading>, tid: i32) -> bool {
    exists|i: int| 0 <= i < readings.len() && (#[trigger] readings[i]).tid == tid
}

/// The cumulative CPU time read for thread `tid`: that of the first reading
/// of it, and zero when there is none. A thread that could not be read counts
/// as having consumed nothing.
pub open spec fn cputime_of(readings: Seq<ThreadReading>, tid: i32) -> u64
    decreases readings.len(),
{
    if readings.len() == 0 {
        0
    } else if readings.first().tid == tid {
        readings.first().cputime
    } else {
        cputime_of(readings.drop_first(), tid)
    }
}

/// Readings that come before the first one of `tid` do not count for it.
pub proof fn lemma_cputime_of_skips(readings: Seq<ThreadReading>, tid: i32, n: int)
    requires
        0 <= n <= readings.len(),
        forall|i: int| 0 <= i < n ==> (#[trigger] readings[i]).tid != tid,
    ensures
        cputime_of(readings, tid) == cputime_of(readings.skip(n), tid),
    decreases n,
{
    if n == 0 {
        assert(readings.skip(0) =~= readings);
    } else {
        let rest = readings.drop_first();
        assert forall|i: int| 0 <= i < n - 1 implies (#[trigger] rest[i]).tid != tid by {
            assert(rest[i] == readings[i + 1]);
        }
        lemma_cputime_of_skips(rest, tid, n - 1);
        assert(rest.skip(n - 1) =~= readings.skip(n));
    }
}

/// The first reading of a thread is the one that counts.
pub proof fn lemma_cputime_of_first(readings: Seq<ThreadReading>, tid: i32, n: int)
    requires
        0 <= n < readings.len(),
        readings[n].tid == tid,
        forall|i: int| 0 <= i < n ==> (#[trigger] readings[i]).tid != tid,
    ensures
        cputime_of(readings, tid) == readings[n].cputime,
{
    lemma_cputime_of_skips(readings, tid, n);
}

/// A thread of which there is no reading has a CPU time of zero.
pub proof fn lemma_cputime_of_unlisted(readings: Seq<ThreadReading>, tid: i32)
    requires
        !listed(readings, tid),
    ensures
        cputime_of(readings, tid) == 0,
{
    lemma_cputime_of_skips(readings, tid, readings.len() as int);
}

/// Looks up the cumulative CPU time read for thread `tid`.
pub fn cputime(readings: &Vec<ThreadReading>, tid: i32) -> (found: u64)
    ensures
        found == cputime_of(readings@, tid),
{
    let mut i: usize = 0;
    while i < readings.len()
        invariant
            0 <= i <= readings.len(),
            forall|k: int| 0 <= k < i ==> (#[trigger] readings@[k]).tid != tid,
        decreases readings.len() - i,
    {
        if readings[i].tid == tid {
            proof {
                lemma_cputime_of_first(readings@, tid, i as int);
            }
            return readings[i].cputime;
        }
        i += 1;
    }
    proof {
        lemma_cputime_of_unlisted(readings@, tid);
    }
    0
}

} // verus!
