//! The set of locks that the ledger holds.

use vstd::prelude::*;
use crate::model::{held_by, locked_amount, released, still_held};
use crate::types::Lock;

verus! {

/// The locks that are held, in the order in which they were taken.
pub struct LockSet {
    entries: Vec<Lock>,
}

impl View for LockSet {
    type V = Seq<Lock>;

    /// The locks in the order in which they were taken.
    closed spec fn view(&self) -> Seq<Lock> {
        self.entries@
    }
}

impl LockSet {
    /// No locks.
    pub fn new() -> (locks: LockSet)
        ensures
            locks@ == Seq::<Lock>::empty(),
    {
        LockSet { entries: Vec::new() }
    }

    /// Adds `lock`. Equal locks are held side by side.
    pub fn record(&mut self, lock: Lock)
        ensures
            final(self)@ == old(self)@.push(lock),
    {
        self.entries.push(lock);
    }

    /// Takes `lock` out, if it is held; of several equal locks the first is taken.
    pub fn supersede(&mut self, lock: Lock)
        ensures
            final(self)@ == old(self)@.remove_value(lock),
    {
        let ghost before = self.entries@;
        let mut i: usize = 0;
        while i < self.entries.len()
            invariant
                i <= before.len(),
                before == old(self)@,
                self.entries@ == before,
                forall|j: int| 0 <= j < i ==> before[j] != lock,
            decreases before.len() - i,
        {
            if self.entries[i] == lock {
                proof {
                    before.index_of_first_ensures(lock);
                }
                self.entries.remove(i);
                return ;
            }
            i += 1;
        }
        proof {
            before.index_of_first_ensures(lock);
        }
    }

    /// Drops the locks of `who` that have expired at block `now`.
    pub fn release(&mut self, who: u64, now: u64)
        ensures
            final(self)@ == released(old(self)@, who, now),
    {
        let ghost before = self.entries@;
        let mut kept: Vec<Lock> = Vec::new();
        let mut i: usize = 0;
        proof {
            reveal(Seq::filter);
        }
        while i < self.entries.len()
            invariant
                i <= before.len(),
                self.entries@ == before,
                kept@ == before.take(i as int).filter(still_held(who, now)),
            decreases before.len() - i,
        {
            let lock = self.entries[i];
            proof {
                reveal(Seq::filter);
                assert(before.take(i + 1).drop_last() == before.take(i as int));
            }
            if !(lock.who == who && lock.until <= now) {
                kept.push(lock);
            }
            i += 1;
        }
        assert(before.take(before.len() as int) == before);
        self.entries = kept;
    }

    /// The largest amount that a lock of `who` holds; zero without such a lock.
    pub fn locked(&self, who: u64) -> (amount: u64)
        ensures
            amount == locked_amount(self@, who),
    {
        let mut amount: u64 = 0;
        let mut i: usize = 0;
        while i < self.entries.len()
            invariant
                i <= self.entries@.len(),
                amount == locked_amount(self.entries@.take(i as int), who),
            decreases self.entries@.len() - i,
        {
            let lock = self.entries[i];
            proof {
                assert(self.entries@.take(i + 1).drop_last() == self.entries@.take(i as int));
            }
            if lock.who == who && lock.amount > amount {
                amount = lock.amount;
            }
            i += 1;
        }
        assert(self.entries@.take(self.entries@.len() as int) == self.entries@);
        amount
    }

    /// The locks of `who`, in the order in which they were taken.
    pub fn of(&self, who: u64) -> (locks: Vec<Lock>)
        ensures
            locks@ == self@.filter(held_by(who)),
    {
        let mut locks: Vec<Lock> = Vec::new();
        let mut i: usize = 0;
        proof {
            reveal(Seq::filter);
        }
        while i < self.entries.len()
            invariant
                i <= self.entries@.len(),
                locks@ == self.entries@.take(i as int).filter(held_by(who)),
            decreases self.entries@.len() - i,
        {
            let lock = self.entries[i];
            proof {
                reveal(Seq::filter);
                assert(self.entries@.take(i + 1).drop_last() == self.entries@.take(i as int));
            }
            if lock.who == who {
                locks.push(lock);
            }
            i += 1;
        }
        assert(self.entries@.take(self.entries@.len() as int) == self.entries@);
        locks
    }
}

} // verus!
