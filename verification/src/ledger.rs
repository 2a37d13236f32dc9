//! The ledger: the voting records of all accounts, the referendums with their running
//! tallies, and the locks.

use std::collections::HashMap;
use vstd::prelude::*;
use vstd::std_specs::hash::*;
use crate::accounting::{
    lemma_direct_change_delegated, lemma_direct_change_tally, lemma_tally_covers, lemma_tally_fits,
};
use crate::consistency::{
    commitments_of, consistent, delegations_of, lemma_close_consistent,
    lemma_consistent_with_locks, lemma_delegate_consistent, lemma_delegate_settles,
    lemma_direct_change_consistent, lemma_direct_change_one, lemma_empty_consistent,
    lemma_inject_consistent, lemma_retract_settles, lemma_tallies_are_running,
    lemma_withdraw_consistent, lemma_withdraw_settles, record_ok, referendum_ok,
    referendum_views, running, same_referendums, settles, tallies_are, vote_delta, widened,
};
use crate::conviction::Conviction;
use crate::error::Error;
use crate::locks::LockSet;
use crate::model::{held_by, locked_amount, Commitment, LedgerView, Referendum};
use crate::types::{Delegations, Lock, ReferendumInfo, ReferendumStatus, Tally, TallyView};
use crate::vote::{AccountVote, DirectVote};
use crate::vote_threshold::VoteThreshold;
use crate::vote_weight::{Calculate, VoteWeight};
use crate::votes::Votes;
use crate::voting::Voting;

verus! {

broadcast use vstd::std_specs::hash::group_hash_axioms;

/// The ledger of a governance engine.
///
/// It owns three stores: the voting record of each account, the referendums with their
/// tallies, and the set of locks. Every action is applied as a whole or refused as a whole.
pub struct Ledger {
    weight: VoteWeight,
    vote_locking_period: u64,
    voting: HashMap<u64, Voting>,
    referendums: Vec<ReferendumInfo>,
    locks: LockSet,
}

/// Takes the record of `who` out of the store; an account without a record is idle.
fn take(voting: &mut HashMap<u64, Voting>, who: u64) -> (record: Voting)
    ensures
        final(voting)@ == old(voting)@.remove(who),
        old(voting)@.contains_key(who) ==> record == old(voting)@[who],
        !old(voting)@.contains_key(who) ==> record.wf(),
        record@ == commitments_of(old(voting)@)[who],
        record.delegations() == delegations_of(old(voting)@, who),
{
    match voting.remove(&who) {
        Some(record) => record,
        None => Voting::idle(),
    }
}

/// Whether the record of `who` is that of a delegating account.
fn is_delegating(voting: &HashMap<u64, Voting>, who: u64) -> (delegating: bool)
    ensures
        delegating == (commitments_of(voting@)[who] is Delegating),
{
    match voting.get(&who) {
        Some(Voting::Delegating { .. }) => true,
        _ => false,
    }
}

/// Adds to `tally`, or takes from it, what `vote` contributes.
fn settle(
    tally: &mut Tally,
    weight: VoteWeight,
    vote: AccountVote<u64>,
    own: bool,
    delegations: Delegations<u128>,
    add: bool,
)
    requires
        add ==> old(tally)@.plus(vote_delta(weight, vote, own, delegations)).fits(),
        !add ==> old(tally)@.covers(vote_delta(weight, vote, own, delegations)),
    ensures
        add ==> final(tally)@ == old(tally)@.plus(vote_delta(weight, vote, own, delegations)),
        !add ==> final(tally)@ == old(tally)@.minus(vote_delta(weight, vote, own, delegations)),
{
    if own {
        let part = Tally::from_vote(weight.calculate(vote));
        let done = if add {
            tally.add(part)
        } else {
            tally.remove(part)
        };
        assert(done is Some);
    }
    match vote.as_standard() {
        Some(approve) => {
            let part = Tally::from_delegations(approve, delegations);
            let done = if add {
                tally.add(part)
            } else {
                tally.remove(part)
            };
            assert(done is Some);
        },
        None => {},
    }
}

/// Whether the record of `who` holds a vote on `r`.
fn has_vote(voting: &HashMap<u64, Voting>, who: u64, r: u32) -> (voted: bool)
    requires
        voting@.contains_key(who) ==> voting@[who].wf(),
    ensures
        voted == commitments_of(voting@)[who].votes().contains_key(r),
{
    match voting.get(&who) {
        Some(Voting::Direct { votes, .. }) => votes.get(r).is_some(),
        _ => false,
    }
}

/// Settles every vote in `votes` on the referendum it was cast on: adds to the tally of
/// each open referendum, or takes from it, what the vote contributes.
fn settle_all(
    referendums: &mut Vec<ReferendumInfo>,
    votes: &Votes,
    own: bool,
    delegations: Delegations<u128>,
    add: bool,
    Ghost(start): Ghost<spec_fn(u32) -> TallyView>,
    Ghost(goal): Ghost<spec_fn(u32) -> TallyView>,
)
    requires
        votes.wf(),
        old(referendums)@.len() <= u32::MAX,
        forall|r: u32| votes@.contains_key(r) ==> r < old(referendums)@.len(),
        tallies_are(old(referendums)@, start),
        settles(old(referendums)@, votes@, own, delegations, add, start, goal),
    ensures
        same_referendums(old(referendums)@, final(referendums)@),
        tallies_are(final(referendums)@, goal),
{
    let ghost before = referendums@;
    let mut i: usize = 0;
    while i < votes.len()
        invariant
            votes.wf(),
            i <= votes.entries().len(),
            before.len() <= u32::MAX,
            forall|r: u32| votes@.contains_key(r) ==> r < before.len(),
            tallies_are(before, start),
            settles(before, votes@, own, delegations, add, start, goal),
            same_referendums(before, referendums@),
            forall|r: int|
                0 <= r < before.len() ==> (
                #[trigger] referendums@[r] matches ReferendumInfo::Ongoing(status)
                    ==> status.tally@ == (if votes@.contains_key(r as u32) && votes.position(
                    r as u32,
                ) < i {
                    goal(r as u32)
                } else {
                    start(r as u32)
                })),
        decreases votes.entries().len() - i,
    {
        proof {
            votes.lemma_entries();
        }
        let (ref_index, entry) = votes.entry(i);
        let index = ref_index as usize;
        match referendums[index] {
            ReferendumInfo::Ongoing(mut status) => {
                settle(&mut status.tally, status.weight, entry.vote, own, delegations, add);
                referendums[index] = ReferendumInfo::Ongoing(status);
            },
            ReferendumInfo::Finished { .. } => {},
        }
        i += 1;
    }
}

/// Adds the voting power `handed` to what `record` carries, or takes it from it, and settles
/// it on every open referendum on which the record holds a standard vote.
fn hand_over(
    referendums: &mut Vec<ReferendumInfo>,
    record: Voting,
    handed: Delegations<u128>,
    add: bool,
    Ghost(start): Ghost<spec_fn(u32) -> TallyView>,
    Ghost(goal): Ghost<spec_fn(u32) -> TallyView>,
) -> (settled: Voting)
    requires
        record.wf(),
        old(referendums)@.len() <= u32::MAX,
        forall|r: u32| record@.votes().contains_key(r) ==> r < old(referendums)@.len(),
        tallies_are(old(referendums)@, start),
        settles(old(referendums)@, record@.votes(), false, handed, add, start, goal),
        add ==> record.delegations().votes + handed.votes <= u128::MAX,
        add ==> record.delegations().capital + handed.capital <= u128::MAX,
        !add ==> record.delegations().votes >= handed.votes,
        !add ==> record.delegations().capital >= handed.capital,
    ensures
        settled.wf(),
        settled@ == record@,
        add ==> settled.delegations().votes == record.delegations().votes + handed.votes,
        add ==> settled.delegations().capital == record.delegations().capital + handed.capital,
        !add ==> settled.delegations().votes == record.delegations().votes - handed.votes,
        !add ==> settled.delegations().capital == record.delegations().capital - handed.capital,
        same_referendums(old(referendums)@, final(referendums)@),
        tallies_are(final(referendums)@, goal),
{
    match record {
        Voting::Direct { votes, delegations: held } => {
            settle_all(referendums, &votes, false, handed, add, Ghost(start), Ghost(goal));
            let delegations = if add {
                Delegations {
                    votes: held.votes + handed.votes,
                    capital: held.capital + handed.capital,
                }
            } else {
                Delegations {
                    votes: held.votes - handed.votes,
                    capital: held.capital - handed.capital,
                }
            };
            Voting::Direct { votes, delegations }
        },
        Voting::Delegating { balance, target, conviction, delegations: held } => {
            let delegations = if add {
                Delegations {
                    votes: held.votes + handed.votes,
                    capital: held.capital + handed.capital,
                }
            } else {
                Delegations {
                    votes: held.votes - handed.votes,
                    capital: held.capital - handed.capital,
                }
            };
            Voting::Delegating { balance, target, conviction, delegations }
        },
    }
}

/// The same voting power in 128 bits.
fn widen(delegations: Delegations<u64>) -> (wide: Delegations<u128>)
    ensures
        wide == widened(delegations),
{
    Delegations { votes: delegations.votes as u128, capital: delegations.capital as u128 }
}

impl View for Ledger {
    type V = LedgerView;

    /// The state that the ledger stores.
    closed spec fn view(&self) -> LedgerView {
        LedgerView {
            weight: self.weight,
            vote_locking_period: self.vote_locking_period,
            commitments: commitments_of(self.voting@),
            referendums: referendum_views(self.referendums@),
            locks: self.locks@,
        }
    }
}

impl Ledger {
    /// Well-formedness: the state is well-formed, and what the ledger keeps of delegated
    /// voting power and of running totals agrees with the sums over all accounts.
    pub closed spec fn wf(&self) -> bool {
        consistent(self@, self.voting@, self.referendums@)
    }

    /// The state of a well-formed ledger is well-formed.
    pub proof fn lemma_state_is_well_formed(&self)
        requires
            self.wf(),
        ensures
            self@.wf(),
    {
    }

    /// A ledger without referendums, votes, delegations or locks. Delegated voting power
    /// is weighed by `weight`, and one lock period lasts `vote_locking_period` blocks.
    pub fn new(weight: VoteWeight, vote_locking_period: u64) -> (ledger: Ledger)
        ensures
            ledger.wf(),
            ledger@ == LedgerView::empty(weight, vote_locking_period),
    {
        let ledger = Ledger {
            weight,
            vote_locking_period,
            voting: HashMap::new(),
            referendums: Vec::new(),
            locks: LockSet::new(),
        };
        proof {
            lemma_empty_consistent(LedgerView::empty(weight, vote_locking_period));
        }
        ledger
    }

    /// The strategy that weighs delegated voting power.
    pub fn weight(&self) -> (weight: VoteWeight)
        ensures
            weight == self@.weight,
    {
        self.weight
    }

    /// The number of blocks in one lock period.
    pub fn vote_locking_period(&self) -> (period: u64)
        ensures
            period == self@.vote_locking_period,
    {
        self.vote_locking_period
    }

    /// The number of referendums that were opened so far.
    pub fn referendum_count(&self) -> (count: u32)
        requires
            self.wf(),
        ensures
            count == self@.referendums.len(),
    {
        self.referendums.len() as u32
    }

    /// Opens a referendum that ends at block `end`, is decided by `threshold`, and whose
    /// votes are weighed by `weight`. Returns its index, or nothing, and changes nothing,
    /// when every index is taken.
    pub fn inject_referendum(&mut self, end: u64, threshold: VoteThreshold, weight: VoteWeight)
        -> (index: Option<u32>)
        requires
            old(self).wf(),
        ensures
            final(self).wf(),
            match index {
                Some(r) => {
                    &&& r == old(self)@.referendums.len()
                    &&& final(self)@ == old(self)@.after_inject(end, threshold, weight)
                },
                None => old(self)@.referendums.len() == u32::MAX && final(self)@ == old(self)@,
            },
    {
        let count = self.referendums.len();
        if count >= u32::MAX as usize {
            return None;
        }
        let info = ReferendumInfo::Ongoing(
            ReferendumStatus { end, threshold, weight, tally: Tally::zero() },
        );
        proof {
            lemma_inject_consistent(self@, self.voting@, self.referendums@, info);
        }
        self.referendums.push(info);
        Some(count as u32)
    }

    /// Casts the vote of `who` on referendum `ref_index`. The vote stands in place of any
    /// earlier vote of `who` on that referendum, and the lock of a vote with a conviction
    /// stands in place of the lock of the earlier vote. `free_balance` is the balance that
    /// `who` may commit.
    pub fn vote(&mut self, who: u64, ref_index: u32, vote: AccountVote<u64>, free_balance: u64)
        -> (result: Result<(), Error>)
        requires
            old(self).wf(),
        ensures
            final(self).wf(),
            match result {
                Ok(_) => {
                    &&& old(self)@.vote_error(who, ref_index, vote, free_balance) is None
                    &&& final(self)@ == old(self)@.after_vote(who, ref_index, vote)
                },
                Err(error) => {
                    &&& old(self)@.vote_error(who, ref_index, vote, free_balance) == Some(error)
                    &&& final(self)@ == old(self)@
                },
            },
    {
        let ghost s0 = self@;
        let ghost voting0 = self.voting@;
        let ghost referendums0 = self.referendums@;
        let index = ref_index as usize;
        if index >= self.referendums.len() {
            return Err(Error::ReferendumNotFound);
        }
        let mut status = match self.referendums[index] {
            ReferendumInfo::Ongoing(status) => status,
            ReferendumInfo::Finished { .. } => {
                return Err(Error::ReferendumClosed);
            },
        };
        if vote.balance() > free_balance as u128 {
            return Err(Error::InsufficientFunds);
        }
        if is_delegating(&self.voting, who) {
            return Err(Error::AlreadyDelegating);
        }
        assert(record_ok(s0, voting0, who));
        assert(referendum_ok(s0, referendums0, index as int));
        let record = take(&mut self.voting, who);
        match record {
            Voting::Direct { mut votes, delegations } => {
                let until = vote.conviction().lock_expiry(status.end, self.vote_locking_period);
                let entry = DirectVote { vote, locked_until: until };
                let ghost changed = votes@.insert(ref_index, entry);
                let ghost mid = s0.with_commitment(who, Commitment::Direct { votes: changed });
                proof {
                    lemma_direct_change_tally(s0, who, changed, ref_index);
                    lemma_direct_change_delegated(s0, who, changed, who);
                    lemma_tally_covers(s0, who, ref_index);
                    lemma_tally_fits(mid, ref_index);
                }
                match votes.get(ref_index) {
                    Some(earlier) => {
                        settle(
                            &mut status.tally,
                            status.weight,
                            earlier.vote,
                            true,
                            delegations,
                            false,
                        );
                        match earlier.lock(who) {
                            Some(lock) => self.locks.supersede(lock),
                            None => {},
                        }
                    },
                    None => {},
                }
                settle(&mut status.tally, status.weight, vote, true, delegations, true);
                votes.insert(ref_index, entry);
                self.referendums[index] = ReferendumInfo::Ongoing(status);
                let changed_record = Voting::Direct { votes, delegations };
                proof {
                    assert(changed.remove(ref_index) =~= s0.commitments[who].votes().remove(
                        ref_index,
                    ));
                    lemma_direct_change_one(
                        s0,
                        voting0,
                        referendums0,
                        who,
                        changed,
                        ref_index,
                        self.referendums@,
                    );
                    lemma_direct_change_consistent(
                        s0,
                        voting0,
                        referendums0,
                        who,
                        changed_record,
                        self.referendums@,
                    );
                    assert(voting0.remove(who).insert(who, changed_record) =~= voting0.insert(
                        who,
                        changed_record,
                    ));
                }
                self.voting.insert(who, changed_record);
                match entry.lock(who) {
                    Some(lock) => self.locks.record(lock),
                    None => {},
                }
                proof {
                    lemma_consistent_with_locks(mid, self@, self.voting@, self.referendums@);
                }
                Ok(())
            },
            Voting::Delegating { .. } => vstd::pervasive::unreached(),
        }
    }

    /// Removes the vote of `who` on the open referendum `ref_index`: the tally loses what the
    /// vote contributed. Locks stay as they are.
    pub fn remove_vote(&mut self, who: u64, ref_index: u32) -> (result: Result<(), Error>)
        requires
            old(self).wf(),
        ensures
            final(self).wf(),
            match result {
                Ok(_) => {
                    &&& old(self)@.remove_vote_error(who, ref_index) is None
                    &&& final(self)@ == old(self)@.after_remove_vote(who, ref_index)
                },
                Err(error) => {
                    &&& old(self)@.remove_vote_error(who, ref_index) == Some(error)
                    &&& final(self)@ == old(self)@
                },
            },
    {
        let ghost s0 = self@;
        let ghost voting0 = self.voting@;
        let ghost referendums0 = self.referendums@;
        let index = ref_index as usize;
        if index >= self.referendums.len() {
            return Err(Error::ReferendumNotFound);
        }
        let mut status = match self.referendums[index] {
            ReferendumInfo::Ongoing(status) => status,
            ReferendumInfo::Finished { .. } => {
                return Err(Error::ReferendumClosed);
            },
        };
        if is_delegating(&self.voting, who) {
            return Err(Error::AlreadyDelegating);
        }
        assert(record_ok(s0, voting0, who));
        assert(referendum_ok(s0, referendums0, index as int));
        if !has_vote(&self.voting, who, ref_index) {
            return Err(Error::Nonsense);
        }
        let record = take(&mut self.voting, who);
        match record {
            Voting::Direct { mut votes, delegations } => {
                let ghost changed = votes@.remove(ref_index);
                proof {
                    lemma_tally_covers(s0, who, ref_index);
                }
                match votes.remove(ref_index) {
                    Some(removed) => {
                        settle(
                            &mut status.tally,
                            status.weight,
                            removed.vote,
                            true,
                            delegations,
                            false,
                        );
                        self.referendums[index] = ReferendumInfo::Ongoing(status);
                    },
                    None => {},
                }
                let changed_record = Voting::Direct { votes, delegations };
                proof {
                    assert(changed.remove(ref_index) =~= s0.commitments[who].votes().remove(
                        ref_index,
                    ));
                    lemma_direct_change_one(
                        s0,
                        voting0,
                        referendums0,
                        who,
                        changed,
                        ref_index,
                        self.referendums@,
                    );
                    lemma_direct_change_consistent(
                        s0,
                        voting0,
                        referendums0,
                        who,
                        changed_record,
                        self.referendums@,
                    );
                    assert(voting0.remove(who).insert(who, changed_record) =~= voting0.insert(
                        who,
                        changed_record,
                    ));
                }
                self.voting.insert(who, changed_record);
                Ok(())
            },
            Voting::Delegating { .. } => vstd::pervasive::unreached(),
        }
    }

    /// Withdraws everything `who` has committed: its votes, or its delegation.
    fn retract(&mut self, who: u64, now: u64)
        requires
            old(self).wf(),
        ensures
            final(self).wf(),
            final(self)@ == old(self)@.retracted(who, now),
    {
        let ghost s0 = self@;
        let ghost voting0 = self.voting@;
        let ghost referendums0 = self.referendums@;
        let ghost mid = s0.with_commitment(who, Commitment::idle());
        proof {
            assert(record_ok(s0, voting0, who));
            lemma_tallies_are_running(s0, voting0, referendums0);
        }
        let record = take(&mut self.voting, who);
        match record {
            Voting::Direct { votes, delegations } => {
                proof {
                    lemma_retract_settles(s0, voting0, referendums0, who);
                }
                settle_all(
                    &mut self.referendums,
                    &votes,
                    true,
                    delegations,
                    false,
                    Ghost(running(s0)),
                    Ghost(running(mid)),
                );
                let idle = Voting::Direct { votes: Votes::new(), delegations };
                proof {
                    lemma_direct_change_consistent(
                        s0,
                        voting0,
                        referendums0,
                        who,
                        idle,
                        self.referendums@,
                    );
                    assert(voting0.remove(who).insert(who, idle) =~= voting0.insert(who, idle));
                }
                self.voting.insert(who, idle);
            },
            Voting::Delegating { balance, target, conviction, delegations } => {
                proof {
                    lemma_withdraw_settles(
                        s0,
                        voting0,
                        referendums0,
                        who,
                        target,
                        conviction,
                        balance,
                    );
                    assert(record_ok(s0, voting0, target));
                }
                let handed = widen(self.weight.delegation(conviction.votes(balance)));
                let idle = Voting::Direct { votes: Votes::new(), delegations };
                self.voting.insert(who, idle);
                let target_record = take(&mut self.voting, target);
                let settled_record = hand_over(
                    &mut self.referendums,
                    target_record,
                    handed,
                    false,
                    Ghost(running(s0)),
                    Ghost(running(mid)),
                );
                proof {
                    lemma_withdraw_consistent(
                        s0,
                        voting0,
                        referendums0,
                        who,
                        target,
                        idle,
                        settled_record,
                        self.referendums@,
                    );
                    assert(voting0.remove(who).insert(who, idle).remove(target).insert(
                        target,
                        settled_record,
                    ) =~= voting0.insert(who, idle).insert(target, settled_record));
                }
                self.voting.insert(target, settled_record);
                if conviction.lock_periods() > 0 {
                    let until = conviction.lock_expiry(now, self.vote_locking_period);
                    self.locks.record(Lock { who, amount: balance, until });
                }
                proof {
                    lemma_consistent_with_locks(mid, self@, self.voting@, self.referendums@);
                }
            },
        }
    }

    /// Hands `balance` of `who`, scaled by `conviction`, to `target`. What `who` had
    /// committed before is withdrawn first, so that a changed delegation counts once; a
    /// delegation with a conviction that is withdrawn leaves a lock that runs from block
    /// `now`. `free_balance` is the balance that `who` may commit.
    pub fn delegate(
        &mut self,
        who: u64,
        target: u64,
        conviction: Conviction,
        balance: u64,
        free_balance: u64,
        now: u64,
    ) -> (result: Result<(), Error>)
        requires
            old(self).wf(),
        ensures
            final(self).wf(),
            match result {
                Ok(_) => {
                    &&& old(self)@.delegate_error(who, target, balance, free_balance) is None
                    &&& final(self)@ == old(self)@.after_delegate(
                        who,
                        target,
                        conviction,
                        balance,
                        now,
                    )
                },
                Err(error) => {
                    &&& old(self)@.delegate_error(who, target, balance, free_balance) == Some(error)
                    &&& final(self)@ == old(self)@
                },
            },
    {
        if who == target {
            return Err(Error::Nonsense);
        }
        if balance > free_balance {
            return Err(Error::InsufficientFunds);
        }
        self.retract(who, now);
        let ghost s0 = self@;
        let ghost voting0 = self.voting@;
        let ghost referendums0 = self.referendums@;
        let ghost next = s0.with_commitment(
            who,
            Commitment::Delegating { balance, target, conviction },
        );
        proof {
            assert(record_ok(s0, voting0, target));
            lemma_tallies_are_running(s0, voting0, referendums0);
            lemma_delegate_settles(s0, voting0, referendums0, who, target, conviction, balance);
        }
        let handed = widen(self.weight.delegation(conviction.votes(balance)));
        let record = take(&mut self.voting, who);
        let delegating = match record {
            Voting::Direct { delegations, .. } => Voting::Delegating {
                balance,
                target,
                conviction,
                delegations,
            },
            Voting::Delegating { .. } => vstd::pervasive::unreached(),
        };
        let target_record = take(&mut self.voting, target);
        let settled_record = hand_over(
            &mut self.referendums,
            target_record,
            handed,
            true,
            Ghost(running(s0)),
            Ghost(running(next)),
        );
        proof {
            lemma_delegate_consistent(
                s0,
                voting0,
                referendums0,
                who,
                target,
                delegating,
                settled_record,
                self.referendums@,
            );
            assert(voting0.remove(who).remove(target).insert(who, delegating).insert(
                target,
                settled_record,
            ) =~= voting0.insert(who, delegating).insert(target, settled_record));
        }
        self.voting.insert(who, delegating);
        self.voting.insert(target, settled_record);
        Ok(())
    }

    /// Takes the delegation of `who` back. The account votes directly again, and has no
    /// votes. A delegation with a conviction leaves a lock that runs from block `now`.
    pub fn undelegate(&mut self, who: u64, now: u64) -> (result: Result<(), Error>)
        requires
            old(self).wf(),
        ensures
            final(self).wf(),
            match result {
                Ok(_) => {
                    &&& old(self)@.undelegate_error(who) is None
                    &&& final(self)@ == old(self)@.retracted(who, now)
                },
                Err(error) => {
                    &&& old(self)@.undelegate_error(who) == Some(error)
                    &&& final(self)@ == old(self)@
                },
            },
    {
        if !is_delegating(&self.voting, who) {
            return Err(Error::NotDelegating);
        }
        self.retract(who, now);
        Ok(())
    }

    /// Drops the locks of `who` that have expired at block `now`, and returns the amount
    /// that stays locked: the largest amount of the locks that `who` still holds. Zero
    /// means that the balance of `who` is unrestricted.
    pub fn unlock(&mut self, who: u64, now: u64) -> (locked: u64)
        requires
            old(self).wf(),
        ensures
            final(self).wf(),
            final(self)@ == old(self)@.after_unlock(who, now),
            locked == locked_amount(final(self)@.locks, who),
    {
        proof {
            lemma_consistent_with_locks(
                self@,
                self@.after_unlock(who, now),
                self.voting@,
                self.referendums@,
            );
        }
        self.locks.release(who, now);
        self.locks.locked(who)
    }

    /// Closes referendum `ref_index`: its totals become final, and `electorate`, the whole
    /// balance that could have voted, decides with the threshold whether it is approved.
    pub fn close_referendum(&mut self, ref_index: u32, electorate: u128) -> (result: Result<
        bool,
        Error,
    >)
        requires
            old(self).wf(),
        ensures
            final(self).wf(),
            match result {
                Ok(approved) => {
                    &&& old(self)@.close_error(ref_index) is None
                    &&& approved == old(self)@.approves(ref_index, electorate)
                    &&& final(self)@ == old(self)@.after_close(ref_index, electorate)
                },
                Err(error) => {
                    &&& old(self)@.close_error(ref_index) == Some(error)
                    &&& final(self)@ == old(self)@
                },
            },
    {
        let index = ref_index as usize;
        if index >= self.referendums.len() {
            return Err(Error::ReferendumNotFound);
        }
        match self.referendums[index] {
            ReferendumInfo::Ongoing(status) => {
                let approved = status.threshold.approved(status.tally, electorate);
                let info = ReferendumInfo::Finished {
                    approved,
                    end: status.end,
                    tally: status.tally,
                };
                proof {
                    assert(referendum_ok(self@, self.referendums@, index as int));
                    lemma_close_consistent(self@, self.voting@, self.referendums@, ref_index, info);
                }
                self.referendums[index] = info;
                Ok(approved)
            },
            ReferendumInfo::Finished { .. } => Err(Error::ReferendumClosed),
        }
    }

    /// What is known of referendum `ref_index`; nothing if no referendum has this index.
    pub fn referendum_info(&self, ref_index: u32) -> (info: Option<ReferendumInfo>)
        requires
            self.wf(),
        ensures
            info == (if ref_index < self@.referendums.len() {
                Some(self@.info_of(ref_index))
            } else {
                None
            }),
    {
        let index = ref_index as usize;
        if index >= self.referendums.len() {
            return None;
        }
        assert(referendum_ok(self@, self.referendums@, index as int));
        Some(self.referendums[index])
    }

    /// The status of referendum `ref_index`, provided it is open.
    pub fn referendum_status(&self, ref_index: u32) -> (status: Result<ReferendumStatus, Error>)
        requires
            self.wf(),
        ensures
            match status {
                Ok(status) => self@.is_ongoing(ref_index) && self@.info_of(ref_index)
                    == ReferendumInfo::Ongoing(status),
                Err(error) => Some(error) == self@.close_error(ref_index),
            },
    {
        match self.referendum_info(ref_index) {
            Some(ReferendumInfo::Ongoing(status)) => Ok(status),
            Some(ReferendumInfo::Finished { .. }) => Err(Error::ReferendumClosed),
            None => Err(Error::ReferendumNotFound),
        }
    }

    /// The totals of referendum `ref_index`: the running totals while it is open, the final
    /// totals afterwards.
    pub fn tally(&self, ref_index: u32) -> (tally: Result<Tally, Error>)
        requires
            self.wf(),
        ensures
            match tally {
                Ok(tally) => ref_index < self@.referendums.len() && tally@ == self@.tally_of(
                    ref_index,
                ),
                Err(error) => ref_index >= self@.referendums.len() && error
                    == Error::ReferendumNotFound,
            },
    {
        match self.referendum_info(ref_index) {
            Some(ReferendumInfo::Ongoing(status)) => {
                proof {
                    lemma_tally_fits(self@, ref_index);
                }
                Ok(status.tally)
            },
            Some(ReferendumInfo::Finished { tally, .. }) => Ok(tally),
            None => Err(Error::ReferendumNotFound),
        }
    }

    /// Whether referendum `ref_index` was approved. The question makes no sense while the
    /// referendum is open.
    pub fn approved(&self, ref_index: u32) -> (approved: Result<bool, Error>)
        requires
            self.wf(),
        ensures
            approved == (if ref_index >= self@.referendums.len() {
                Err::<bool, Error>(Error::ReferendumNotFound)
            } else {
                match self@.referendums[ref_index as int] {
                    Referendum::Finished { approved, .. } => Ok(approved),
                    Referendum::Ongoing { .. } => Err(Error::Nonsense),
                }
            }),
    {
        match self.referendum_info(ref_index) {
            Some(ReferendumInfo::Finished { approved, .. }) => Ok(approved),
            Some(ReferendumInfo::Ongoing(_)) => Err(Error::Nonsense),
            None => Err(Error::ReferendumNotFound),
        }
    }

    /// The vote of `who` on referendum `ref_index`, if `who` votes directly and has one.
    pub fn vote_of(&self, who: u64, ref_index: u32) -> (vote: Option<AccountVote<u64>>)
        requires
            self.wf(),
        ensures
            vote == self@.vote_of(who, ref_index),
    {
        assert(record_ok(self@, self.voting@, who));
        match self.voting.get(&who) {
            Some(Voting::Direct { votes, .. }) => match votes.get(ref_index) {
                Some(entry) => Some(entry.vote),
                None => None,
            },
            _ => None,
        }
    }

    /// The delegation of `who`: the target, the conviction and the balance; nothing if
    /// `who` votes directly.
    pub fn delegation_of(&self, who: u64) -> (delegation: Option<(u64, Conviction, u64)>)
        requires
            self.wf(),
        ensures
            match delegation {
                Some((target, conviction, balance)) => self@.commitments[who]
                    == (Commitment::Delegating { balance, target, conviction }),
                None => self@.commitments[who] is Direct,
            },
    {
        match self.voting.get(&who) {
            Some(Voting::Delegating { balance, target, conviction, .. }) => Some(
                (*target, *conviction, *balance),
            ),
            _ => None,
        }
    }

    /// The voting power that other accounts have delegated to `who`.
    pub fn delegations_to(&self, who: u64) -> (delegations: Delegations<u128>)
        requires
            self.wf(),
        ensures
            delegations.votes == self@.delegated_votes(who),
            delegations.capital == self@.delegated_capital(who),
    {
        assert(record_ok(self@, self.voting@, who));
        match self.voting.get(&who) {
            Some(Voting::Direct { delegations, .. }) => *delegations,
            Some(Voting::Delegating { delegations, .. }) => *delegations,
            None => Delegations { votes: 0, capital: 0 },
        }
    }

    /// The locks that `who` holds, in the order in which they were taken.
    pub fn locks_of(&self, who: u64) -> (locks: Vec<Lock>)
        ensures
            locks@ == self@.locks.filter(held_by(who)),
    {
        self.locks.of(who)
    }

    /// The amount of the balance of `who` that is locked: the largest amount of the locks
    /// that `who` holds.
    pub fn locked_balance(&self, who: u64) -> (locked: u64)
        ensures
            locked == locked_amount(self@.locks, who),
    {
        self.locks.locked(who)
    }
}

} // verus!
