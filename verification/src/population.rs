//! The keyed store of trackers.
//!
//! The map itself is `hashbrown::HashMap`. Nothing here is proved of it: each
//! function below states what the map's own documentation and source say of
//! the one method it calls, over [`trackers`], the mapping that a population
//! stands for.

use hashbrown::HashMap;
use vstd::prelude::*;

use crate::tracker::UsageTracker;

verus! {

/// Trackers keyed by thread id, kept in a `hashbrown::HashMap`.
#[verifier::external_body]
pub struct Population {
    map: HashMap<i32, UsageTracker>,
}

/// What a population holds: the tracker stored under each thread id.
pub uninterp spec fn trackers(population: Population) -> Map<i32, UsageTracker>;

/// `entries` lists `held` once: every entry is a pair of `held`, no thread id
/// comes twice, and every thread id of `held` comes. Nothing is said of the
/// order.
pub open spec fn is_listing(
    entries: Seq<(i32, UsageTracker)>,
    held: Map<i32, UsageTracker>,
) -> bool {
    &&& forall|i: int|
        0 <= i < entries.len() ==> held.contains_pair((#[trigger] entries[i]).0, entries[i].1)
    &&& forall|i: int, j: int|
        0 <= i < j < entries.len() ==> (#[trigger] entries[i]).0 != (#[trigger] entries[j]).0
    &&& forall|tid: i32| #[trigger]
        held.contains_key(tid) ==> exists|i: int|
            0 <= i < entries.len() && (#[trigger] entries[i]).0 == tid
}

/// What a lookup of `tid` in `held` gives.
pub open spec fn lookup(held: Map<i32, UsageTracker>, tid: i32) -> Option<UsageTracker> {
    if held.contains_key(tid) {
        Some(held[tid])
    } else {
        None
    }
}

impl Population {
    /// `HashMap::new`: a map that holds nothing.
    #[verifier::external_body]
    pub(crate) fn new() -> (created: Population)
        ensures
            trackers(created) =~= Map::empty(),
    {
        Population { map: HashMap::new() }
    }

    /// `HashMap::clear`: afterwards the map holds nothing.
    #[verifier::external_body]
    pub(crate) fn clear(&mut self)
        ensures
            trackers(*final(self)) =~= Map::empty(),
    {
        self.map.clear();
    }

    /// `HashMap::insert`: afterwards `tid` maps to `tracker`, whatever it
    /// mapped to before, and no other key has changed.
    #[verifier::external_body]
    pub(crate) fn insert(&mut self, tid: i32, tracker: UsageTracker)
        ensures
            trackers(*final(self)) == trackers(*old(self)).insert(tid, tracker),
    {
        self.map.insert(tid, tracker);
    }

    /// `HashMap::remove`: hands out the tracker stored under `tid`, if there
    /// is one, and afterwards the map has no such key; no other key has
    /// changed.
    #[verifier::external_body]
    pub(crate) fn remove(&mut self, tid: i32) -> (removed: Option<UsageTracker>)
        ensures
            removed == lookup(trackers(*old(self)), tid),
            trackers(*final(self)) == trackers(*old(self)).remove(tid),
    {
        self.map.remove(&tid)
    }

    /// `HashMap::get`: a copy of the tracker stored under `tid`, if there is
    /// one.
    #[verifier::external_body]
    pub(crate) fn get(&self, tid: i32) -> (found: Option<UsageTracker>)
        ensures
            found == lookup(trackers(*self), tid),
    {
        self.map.get(&tid).copied()
    }

    /// `HashMap::iter`: every pair of the map once, copied out in the order in
    /// which the map is walked, of which nothing is known.
    #[verifier::external_body]
    pub(crate) fn entries(&self) -> (entries: Vec<(i32, UsageTracker)>)
        ensures
            is_listing(entries@, trackers(*self)),
    {
        self.map.iter().map(|(tid, tracker)| (*tid, *tracker)).collect()
    }
}

} // verus!
