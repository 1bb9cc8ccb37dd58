//! Ordering threads by how busy they were.

use vstd::prelude::*;
use vstd::seq_lib::*;

use crate::readings::ThreadReading;

verus! {

/// A thread with the utilization it is ranked by.
#[derive(Debug, Clone, Copy, PartialEq, Eq, Structural)]
pub struct RankedThread {
    pub reading: ThreadReading,
    pub usage: u64,
}

/// No utilization is followed by a higher one.
pub open spec fn is_descending(threads: Seq<RankedThread>) -> bool {
    forall|i: int, j: int| 0 <= i <= j < threads.len() ==> threads[i].usage >= threads[j].usage
}

/// No thread id comes twice.
pub open spec fn has_distinct_tids(threads: Seq<RankedThread>) -> bool {
    forall|i: int, j: int|
        0 <= i < j < threads.len() ==> threads[i].reading.tid != threads[j].reading.tid
}

/// Two sequences with the same entries have each other's entries.
pub proof fn lemma_same_entries(a: Seq<RankedThread>, b: Seq<RankedThread>)
    requires
        a.to_multiset() == b.to_multiset(),
    ensures
        a.len() == b.len(),
        forall|i: int| 0 <= i < a.len() ==> b.contains(#[trigger] a[i]),
{
    to_multiset_len(a);
    to_multiset_len(b);
    assert forall|i: int| 0 <= i < a.len() implies b.contains(#[trigger] a[i]) by {
        to_multiset_contains(a, a[i]);
        to_multiset_contains(b, a[i]);
    }
}

/// Reordering keeps thread ids distinct.
pub proof fn lemma_reordering_keeps_distinct_tids(a: Seq<RankedThread>, b: Seq<RankedThread>)
    requires
        a.to_multiset() == b.to_multiset(),
        has_distinct_tids(a),
    ensures
        has_distinct_tids(b),
{
    a.lemma_multiset_has_no_duplicates();
    b.lemma_multiset_has_no_duplicates_conv();
    lemma_same_entries(b, a);
    assert forall|i: int, j: int| 0 <= i < j < b.len() implies b[i].reading.tid
        != b[j].reading.tid by {
        // the two entries are different entries of `a`
        assert(a.contains(b[i]) && a.contains(b[j]));
        assert(b[i] != b[j]);
    }
}

/// Orders `threads` from the busiest to the idlest. Which of two equally busy
/// threads comes first is left open.
pub fn sort_by_usage(threads: &Vec<RankedThread>) -> (sorted: Vec<RankedThread>)
    ensures
        sorted@.to_multiset() == threads@.to_multiset(),
        is_descending(sorted@),
{
    let mut sorted: Vec<RankedThread> = Vec::new();
    let mut i: usize = 0;
    assert(sorted@ =~= threads@.take(0));
    while i < threads.len()
        invariant
            0 <= i <= threads.len(),
            sorted@.to_multiset() == threads@.take(i as int).to_multiset(),
            is_descending(sorted@),
        decreases threads.len() - i,
    {
        let thread = threads[i];
        let mut at: usize = 0;
        proof {
            to_multiset_len(sorted@);
            to_multiset_len(threads@.take(i as int));
        }
        while at < sorted.len() && sorted[at].usage >= thread.usage
            invariant
                0 <= at <= sorted.len(),
                forall|k: int| 0 <= k < at ==> sorted@[k].usage >= thread.usage,
            decreases sorted.len() - at,
        {
            at += 1;
        }
        let ghost before = sorted@;
        sorted.insert(at, thread);
        proof {
            assert(threads@.take(i + 1) =~= threads@.take(i as int).push(thread));
            to_multiset_build(threads@.take(i as int), thread);
            to_multiset_insert(before, at as int, thread);
            assert forall|a: int, b: int| 0 <= a <= b < sorted@.len() implies sorted@[a].usage
                >= sorted@[b].usage by {
                if b > at {
                    assert(sorted@[b] == before[b - 1]);
                }
                if a > at {
                    assert(sorted@[a] == before[a - 1]);
                }
            }
        }
        i += 1;
    }
    assert(threads@.take(threads.len() as int) =~= threads@);
    sorted
}

} // verus!
