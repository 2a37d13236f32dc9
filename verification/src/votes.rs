//! The votes of one account, by referendum.

use vstd::prelude::*;
use crate::vote::DirectVote;

verus! {

/// The votes of one account: at most one for each referendum, kept in the order of the
/// referendum indices.
pub struct Votes {
    entries: Vec<(u32, DirectVote)>,
}

impl View for Votes {
    type V = Map<u32, DirectVote>;

    /// The votes as a map from the referendum index to the vote.
    open spec fn view(&self) -> Map<u32, DirectVote> {
        Map::new(|r: u32| self.has(r), |r: u32| self.entries()[self.position(r)].1)
    }
}

impl Votes {
    /// The votes in the order in which they are kept.
    pub closed spec fn entries(&self) -> Seq<(u32, DirectVote)> {
        self.entries@
    }

    /// Whether a vote on `r` is held.
    pub open spec fn has(&self, r: u32) -> bool {
        exists|i: int| 0 <= i < self.entries().len() && (#[trigger] self.entries()[i]).0 == r
    }

    /// The place at which the vote on `r` is kept.
    pub open spec fn position(&self, r: u32) -> int {
        choose|i: int| 0 <= i < self.entries().len() && (#[trigger] self.entries()[i]).0 == r
    }

    /// Well-formedness: the referendum indices increase strictly.
    pub open spec fn wf(&self) -> bool {
        forall|i: int, j: int|
            0 <= i < j < self.entries().len() ==> (#[trigger] self.entries()[i]).0 < (
            #[trigger] self.entries()[j]).0
    }

    /// Every entry is in the map, and everything in the map is an entry.
    pub proof fn lemma_entries(&self)
        requires
            self.wf(),
        ensures
            forall|i: int|
                0 <= i < self.entries().len() ==> self@.contains_key(
                    (#[trigger] self.entries()[i]).0,
                ) && self@[self.entries()[i].0] == self.entries()[i].1,
            forall|r: u32|
                self@.contains_key(r) ==> 0 <= #[trigger] self.position(r) < self.entries().len()
                    && self.entries()[self.position(r)].0 == r,
    {
    }

    /// No votes.
    pub fn new() -> (votes: Votes)
        ensures
            votes.wf(),
            votes@ == Map::<u32, DirectVote>::empty(),
            votes.entries().len() == 0,
    {
        Votes { entries: Vec::new() }
    }

    /// The number of votes.
    pub fn len(&self) -> (n: usize)
        ensures
            n == self.entries().len(),
    {
        self.entries.len()
    }

    /// The referendum index and the vote at place `i`.
    pub fn entry(&self, i: usize) -> (entry: (u32, DirectVote))
        requires
            i < self.entries().len(),
        ensures
            entry == self.entries()[i as int],
    {
        self.entries[i]
    }

    /// Where the vote on `r` is kept, or where it would have to be put.
    fn find(&self, r: u32) -> (place: Result<usize, usize>)
        requires
            self.wf(),
        ensures
            match place {
                Ok(i) => i < self.entries().len() && self.entries()[i as int].0 == r,
                Err(i) => {
                    &&& i <= self.entries().len()
                    &&& forall|j: int| 0 <= j < i ==> (#[trigger] self.entries()[j]).0 < r
                    &&& forall|j: int|
                        i <= j < self.entries().len() ==> (#[trigger] self.entries()[j]).0 > r
                },
            },
    {
        let mut lo: usize = 0;
        let mut hi: usize = self.entries.len();
        while lo < hi
            invariant
                self.wf(),
                lo <= hi <= self.entries().len(),
                forall|j: int| 0 <= j < lo ==> (#[trigger] self.entries()[j]).0 < r,
                forall|j: int|
                    hi <= j < self.entries().len() ==> (#[trigger] self.entries()[j]).0 > r,
            decreases hi - lo,
        {
            let mid = lo + (hi - lo) / 2;
            let key = self.entries[mid].0;
            if key == r {
                return Ok(mid);
            } else if key < r {
                lo = mid + 1;
            } else {
                hi = mid;
            }
        }
        Err(lo)
    }

    /// The vote on `r`, if there is one.
    pub fn get(&self, r: u32) -> (vote: Option<DirectVote>)
        requires
            self.wf(),
        ensures
            vote == (if self@.contains_key(r) {
                Some(self@[r])
            } else {
                None
            }),
    {
        match self.find(r) {
            Ok(i) => Some(self.entries[i].1),
            Err(_) => None,
        }
    }

    /// Puts `vote` in the place of the vote on `r`, or adds it if there was none.
    pub fn insert(&mut self, r: u32, vote: DirectVote)
        requires
            old(self).wf(),
        ensures
            final(self).wf(),
            final(self)@ == old(self)@.insert(r, vote),
    {
        match self.find(r) {
            Ok(i) => {
                self.entries[i] = (r, vote);
                proof {
                    let after = self.entries();
                    assert forall|k: u32| self@.contains_key(k) <==> old(self)@.insert(
                        r,
                        vote,
                    ).contains_key(k) by {
                        if old(self).has(k) {
                            let p = old(self).position(k);
                            assert(after[p].0 == k);
                        }
                    }
                }
            },
            Err(i) => {
                self.entries.insert(i, (r, vote));
                proof {
                    let after = self.entries();
                    assert forall|k: u32| self@.contains_key(k) <==> old(self)@.insert(
                        r,
                        vote,
                    ).contains_key(k) by {
                        if old(self).has(k) {
                            let p = old(self).position(k);
                            let q = if p < i { p } else { p + 1 };
                            assert(after[q].0 == k);
                        }
                        if k == r {
                            assert(after[i as int].0 == r);
                        }
                    }
                }
            },
        }
    }

    /// Takes the vote on `r` out, if there is one.
    pub fn remove(&mut self, r: u32) -> (vote: Option<DirectVote>)
        requires
            old(self).wf(),
        ensures
            final(self).wf(),
            final(self)@ == old(self)@.remove(r),
            vote == (if old(self)@.contains_key(r) {
                Some(old(self)@[r])
            } else {
                None
            }),
    {
        match self.find(r) {
            Ok(i) => {
                let (_, vote) = self.entries.remove(i);
                proof {
                    let after = self.entries();
                    assert forall|k: u32| self@.contains_key(k) <==> old(self)@.remove(
                        r,
                    ).contains_key(k) by {
                        if old(self).has(k) && k != r {
                            let p = old(self).position(k);
                            let q = if p < i { p } else { p - 1 };
                            assert(after[q].0 == k);
                        }
                    }
                }
                Some(vote)
            },
            Err(_) => None,
        }
    }
}

} // verus!
