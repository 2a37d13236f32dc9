//! The ledger as a mathematical object: what every account has committed, which referendums
//! exist, and which locks are held. Tallies and delegated weight are not stored in it; they
//! are sums over the commitments of all accounts.

use vstd::prelude::*;
use crate::conviction::Conviction;
use crate::error::Error;
use crate::sums::sum_below;
use crate::types::{Delegations, Lock, ReferendumInfo, ReferendumStatus, Tally, TallyView};
use crate::vote::{AccountVote, DirectVote};
use crate::vote_threshold::VoteThreshold;
use crate::vote_weight::{Calculate, VoteWeight};

verus! {

/// The number of account identifiers.
pub open spec fn accounts() -> nat {
    0x1_0000_0000_0000_0000
}

/// One of the three totals of a tally.
pub enum Part {
    /// Weighted approving votes.
    Ayes,
    /// Weighted rejecting votes.
    Nays,
    /// Raw balance committed.
    Turnout,
}

impl TallyView {
    /// The total that `part` names.
    pub open spec fn part(self, part: Part) -> int {
        match part {
            Part::Ayes => self.ayes,
            Part::Nays => self.nays,
            Part::Turnout => self.turnout,
        }
    }
}

/// What an account has committed its balance to. An account is in exactly one of the two
/// states.
pub enum Commitment {
    /// The account votes itself: its vote on each referendum it has voted on.
    Direct { votes: Map<u32, DirectVote> },
    /// The account has handed `balance`, scaled by `conviction`, to `target`.
    Delegating { balance: u64, target: u64, conviction: Conviction },
}

impl Commitment {
    /// The state of an account that has neither voted nor delegated.
    pub open spec fn idle() -> Commitment {
        Commitment::Direct { votes: Map::empty() }
    }

    /// The votes of a direct voter; none for a delegating account.
    pub open spec fn votes(self) -> Map<u32, DirectVote> {
        match self {
            Commitment::Direct { votes } => votes,
            Commitment::Delegating { .. } => Map::empty(),
        }
    }
}

/// A referendum without its running totals.
pub enum Referendum {
    /// Voting is open until block `end`; `threshold` will decide approval, and `weight`
    /// weighs the votes.
    Ongoing { end: u64, threshold: VoteThreshold, weight: VoteWeight },
    /// Voting is over: the decision, the block at which voting ended, and the final totals.
    Finished { approved: bool, end: u64, tally: Tally },
}

impl Referendum {
    /// The block at which voting ends or ended.
    pub open spec fn end(self) -> u64 {
        match self {
            Referendum::Ongoing { end, .. } => end,
            Referendum::Finished { end, .. } => end,
        }
    }

    /// The strategy that weighs the votes cast on an open referendum.
    pub open spec fn weight(self) -> VoteWeight {
        match self {
            Referendum::Ongoing { weight, .. } => weight,
            Referendum::Finished { .. } => VoteWeight::Standard,
        }
    }
}

impl View for ReferendumInfo {
    type V = Referendum;

    /// The referendum without its running totals.
    open spec fn view(&self) -> Referendum {
        match *self {
            ReferendumInfo::Ongoing(status) => Referendum::Ongoing {
                end: status.end,
                threshold: status.threshold,
                weight: status.weight,
            },
            ReferendumInfo::Finished { approved, end, tally } => Referendum::Finished {
                approved,
                end,
                tally,
            },
        }
    }
}

/// The lock that a commitment of `amount` at `conviction` takes: none without lock periods.
pub open spec fn lock_for(conviction: Conviction, who: u64, amount: u64, until: u64) -> Option<
    Lock,
> {
    if conviction.spec_lock_periods() > 0 {
        Some(Lock { who, amount, until })
    } else {
        None
    }
}

/// Whether `lock` belongs to `who` and has expired at block `now`.
pub open spec fn expired(lock: Lock, who: u64, now: u64) -> bool {
    lock.who == who && lock.until <= now
}

/// The test that a lock passes unless it belongs to `who` and has expired at block `now`.
pub open spec fn still_held(who: u64, now: u64) -> spec_fn(Lock) -> bool {
    |lock: Lock| !expired(lock, who, now)
}

/// The lock set without the locks of `who` that have expired at block `now`.
pub open spec fn released(locks: Seq<Lock>, who: u64, now: u64) -> Seq<Lock> {
    locks.filter(still_held(who, now))
}

/// The test that the locks of `who` pass.
pub open spec fn held_by(who: u64) -> spec_fn(Lock) -> bool {
    |lock: Lock| lock.who == who
}

/// The largest amount that a lock of `who` holds; zero without such a lock.
pub open spec fn locked_amount(locks: Seq<Lock>, who: u64) -> nat
    decreases locks.len(),
{
    if locks.len() == 0 {
        0
    } else {
        let rest = locked_amount(locks.drop_last(), who);
        let last = locks.last();
        if last.who == who && last.amount > rest {
            last.amount as nat
        } else {
            rest
        }
    }
}

/// The abstract state of a ledger.
pub struct LedgerView {
    /// The strategy that weighs delegated voting power.
    pub weight: VoteWeight,
    /// The number of blocks in one lock period.
    pub vote_locking_period: u64,
    /// The commitment of every account.
    pub commitments: Map<u64, Commitment>,
    /// The referendums, by index.
    pub referendums: Seq<Referendum>,
    /// The locks that are held.
    pub locks: Seq<Lock>,
}

impl LedgerView {
    /// The state of a new ledger: every account idle, no referendum, no lock.
    pub open spec fn empty(weight: VoteWeight, vote_locking_period: u64) -> LedgerView {
        LedgerView {
            weight,
            vote_locking_period,
            commitments: Map::new(|who: u64| true, |who: u64| Commitment::idle()),
            referendums: Seq::empty(),
            locks: Seq::empty(),
        }
    }

    /// Well-formedness: every account has a commitment, votes refer to referendums that
    /// exist and commit no more than a 64-bit balance, and no account delegates to itself.
    pub open spec fn wf(self) -> bool {
        &&& forall|who: u64| self.commitments.contains_key(who)
        &&& self.referendums.len() <= u32::MAX
        &&& forall|who: u64, r: u32| #[trigger]
            self.commitments[who].votes().contains_key(r) ==> {
                &&& r < self.referendums.len()
                &&& self.commitments[who].votes()[r].vote.spec_balance() <= u64::MAX
            }
        &&& forall|who: u64|
            (#[trigger] self.commitments[who]) matches Commitment::Delegating { target, .. }
                ==> target != who
    }

    /// Whether `r` is the index of a referendum that is open.
    pub open spec fn is_ongoing(self, r: u32) -> bool {
        r < self.referendums.len() && self.referendums[r as int] is Ongoing
    }

    /// The vote of `who` on `r`, if `who` votes directly and has one.
    pub open spec fn vote_of(self, who: u64, r: u32) -> Option<AccountVote<u64>> {
        if self.commitments[who].votes().contains_key(r) {
            Some(self.commitments[who].votes()[r].vote)
        } else {
            None
        }
    }

    /// The weighted voting power that a delegation of `balance` at `conviction` hands over:
    /// the balance is scaled by the conviction, then weighed.
    pub open spec fn weighted(self, conviction: Conviction, balance: u64) -> Delegations<u64> {
        self.weight.spec_delegation(conviction.spec_delegations(balance))
    }

    /// What account `d` hands to `to`: its weighted delegation if it delegates to `to`,
    /// nothing otherwise.
    pub open spec fn delegation_from(self, d: u64, to: u64) -> Delegations<u64> {
        match self.commitments[d] {
            Commitment::Delegating { balance, target, conviction } if target == to => self.weighted(
                conviction,
                balance,
            ),
            _ => Delegations { votes: 0, capital: 0 },
        }
    }

    /// The votes that each account hands to `to`, as a function of the account.
    pub open spec fn votes_handed_to(self, to: u64) -> spec_fn(int) -> int {
        |d: int| self.delegation_from(d as u64, to).votes as int
    }

    /// The capital that each account hands to `to`, as a function of the account.
    pub open spec fn capital_handed_to(self, to: u64) -> spec_fn(int) -> int {
        |d: int| self.delegation_from(d as u64, to).capital as int
    }

    /// The weighted votes delegated to `to`: the sum over all accounts that delegate to it.
    pub open spec fn delegated_votes(self, to: u64) -> int {
        sum_below(self.votes_handed_to(to), accounts())
    }

    /// The capital delegated to `to`: the sum over all accounts that delegate to it.
    pub open spec fn delegated_capital(self, to: u64) -> int {
        sum_below(self.capital_handed_to(to), accounts())
    }

    /// The direction in which the weight delegated to `who` counts on `r`: that of the
    /// standard vote of `who` on `r`. Delegated weight does not count behind a split vote.
    pub open spec fn backing(self, who: u64, r: u32) -> Option<bool> {
        match self.vote_of(who, r) {
            Some(vote) => vote.spec_as_standard(),
            None => None,
        }
    }

    /// What the own vote of `who` adds to the tally of `r`.
    pub open spec fn own_contribution(self, who: u64, r: u32) -> TallyView {
        match self.vote_of(who, r) {
            Some(vote) => TallyView::of_vote(
                self.referendums[r as int].weight().spec_calculate(vote),
            ),
            None => TallyView::zero(),
        }
    }

    /// What the delegation of `d` adds to the tally of `r` through the vote of `through`.
    pub open spec fn passed_contribution(self, d: u64, through: u64, r: u32) -> TallyView {
        match self.backing(through, r) {
            Some(approve) => TallyView::of_delegations(
                approve,
                self.delegation_from(d, through).votes as int,
                self.delegation_from(d, through).capital as int,
            ),
            None => TallyView::zero(),
        }
    }

    /// What the weight delegated to `who` adds to the tally of `r`.
    pub open spec fn inherited_contribution(self, who: u64, r: u32) -> TallyView {
        match self.backing(who, r) {
            Some(approve) => TallyView::of_delegations(
                approve,
                self.delegated_votes(who),
                self.delegated_capital(who),
            ),
            None => TallyView::zero(),
        }
    }

    /// What `who` adds to the tally of `r`: its own vote and the weight delegated to it.
    pub open spec fn contribution(self, who: u64, r: u32) -> TallyView {
        self.own_contribution(who, r).plus(self.inherited_contribution(who, r))
    }

    /// One total of the contribution to `r`, as a function of the account.
    pub open spec fn contributions(self, r: u32, part: Part) -> spec_fn(int) -> int {
        |who: int| self.contribution(who as u64, r).part(part)
    }

    /// The totals of an open referendum: the sum of the contributions of all accounts.
    pub open spec fn running_tally(self, r: u32) -> TallyView {
        TallyView {
            ayes: sum_below(self.contributions(r, Part::Ayes), accounts()),
            nays: sum_below(self.contributions(r, Part::Nays), accounts()),
            turnout: sum_below(self.contributions(r, Part::Turnout), accounts()),
        }
    }

    /// The totals of referendum `r`: the running totals while it is open, the final totals
    /// afterwards.
    pub open spec fn tally_of(self, r: u32) -> TallyView {
        match self.referendums[r as int] {
            Referendum::Finished { tally, .. } => tally@,
            Referendum::Ongoing { .. } => self.running_tally(r),
        }
    }

    /// What `who` itself has at stake in `r`: its own vote if it votes directly, and what
    /// its delegation passes on through its delegate if it delegates.
    pub open spec fn stake(self, who: u64, r: u32) -> TallyView {
        match self.commitments[who] {
            Commitment::Direct { .. } => self.own_contribution(who, r),
            Commitment::Delegating { target, .. } => self.passed_contribution(who, target, r),
        }
    }

    /// One total of the stake in `r`, as a function of the account.
    pub open spec fn stakes(self, r: u32, part: Part) -> spec_fn(int) -> int {
        |who: int| self.stake(who as u64, r).part(part)
    }

    /// The block until which a vote at `conviction` on referendum `r` stays locked.
    pub open spec fn vote_lock_expiry(self, r: u32, conviction: Conviction) -> u64 {
        conviction.spec_lock_expiry(self.referendums[r as int].end(), self.vote_locking_period)
    }

    /// The state in which `who` has the commitment `commitment`.
    pub open spec fn with_commitment(self, who: u64, commitment: Commitment) -> LedgerView {
        LedgerView { commitments: self.commitments.insert(who, commitment), ..self }
    }

    /// The state in which `lock`, if there is one, is added to the locks.
    pub open spec fn with_lock(self, lock: Option<Lock>) -> LedgerView {
        match lock {
            Some(lock) => LedgerView { locks: self.locks.push(lock), ..self },
            None => self,
        }
    }

    /// The state in which `lock`, if there is one and it is still held, is taken from the
    /// locks; of several equal locks one is taken.
    pub open spec fn without_lock(self, lock: Option<Lock>) -> LedgerView {
        match lock {
            Some(lock) => LedgerView { locks: self.locks.remove_value(lock), ..self },
            None => self,
        }
    }

    /// The lock that the vote of `who` on `r` has taken, if `who` has such a vote and the
    /// vote has a conviction.
    pub open spec fn vote_lock(self, who: u64, r: u32) -> Option<Lock> {
        if self.commitments[who].votes().contains_key(r) {
            self.commitments[who].votes()[r].spec_lock(who)
        } else {
            None
        }
    }

    /// Why a vote of `who` on `r` is refused, if it is.
    pub open spec fn vote_error(self, who: u64, r: u32, vote: AccountVote<u64>, free_balance: u64)
        -> Option<Error> {
        if r >= self.referendums.len() {
            Some(Error::ReferendumNotFound)
        } else if !self.is_ongoing(r) {
            Some(Error::ReferendumClosed)
        } else if vote.spec_balance() > free_balance {
            Some(Error::InsufficientFunds)
        } else if self.commitments[who] is Delegating {
            Some(Error::AlreadyDelegating)
        } else {
            None
        }
    }

    /// The state after `who` has voted on `r`: the vote stands in place of any earlier vote
    /// of `who` on `r`, and the lock of a vote with a conviction stands in place of the lock
    /// of the earlier vote.
    pub open spec fn after_vote(self, who: u64, r: u32, vote: AccountVote<u64>) -> LedgerView {
        let until = self.vote_lock_expiry(r, vote.spec_conviction());
        let entry = DirectVote { vote, locked_until: until };
        self.with_commitment(
            who,
            Commitment::Direct { votes: self.commitments[who].votes().insert(r, entry) },
        ).without_lock(self.vote_lock(who, r)).with_lock(entry.spec_lock(who))
    }

    /// Why the removal of the vote of `who` on `r` is refused, if it is.
    pub open spec fn remove_vote_error(self, who: u64, r: u32) -> Option<Error> {
        if r >= self.referendums.len() {
            Some(Error::ReferendumNotFound)
        } else if !self.is_ongoing(r) {
            Some(Error::ReferendumClosed)
        } else if self.commitments[who] is Delegating {
            Some(Error::AlreadyDelegating)
        } else if !self.commitments[who].votes().contains_key(r) {
            Some(Error::Nonsense)
        } else {
            None
        }
    }

    /// The state after the vote of `who` on `r` was removed. Locks stay as they are.
    pub open spec fn after_remove_vote(self, who: u64, r: u32) -> LedgerView {
        self.with_commitment(
            who,
            Commitment::Direct { votes: self.commitments[who].votes().remove(r) },
        )
    }

    /// The state after `who` has withdrawn everything it had committed: its votes are
    /// removed, or its delegation is taken back. A delegation with a conviction leaves a
    /// lock that runs from block `now`.
    pub open spec fn retracted(self, who: u64, now: u64) -> LedgerView {
        match self.commitments[who] {
            Commitment::Direct { .. } => self.with_commitment(who, Commitment::idle()),
            Commitment::Delegating { balance, conviction, .. } => self.with_commitment(
                who,
                Commitment::idle(),
            ).with_lock(
                lock_for(
                    conviction,
                    who,
                    balance,
                    conviction.spec_lock_expiry(now, self.vote_locking_period),
                ),
            ),
        }
    }

    /// Why a delegation from `who` to `target` is refused, if it is.
    pub open spec fn delegate_error(self, who: u64, target: u64, balance: u64, free_balance: u64)
        -> Option<Error> {
        if who == target {
            Some(Error::Nonsense)
        } else if balance > free_balance {
            Some(Error::InsufficientFunds)
        } else {
            None
        }
    }

    /// The state after `who` has delegated `balance` at `conviction` to `target`: what it
    /// had committed before is withdrawn first.
    pub open spec fn after_delegate(
        self,
        who: u64,
        target: u64,
        conviction: Conviction,
        balance: u64,
        now: u64,
    ) -> LedgerView {
        self.retracted(who, now).with_commitment(
            who,
            Commitment::Delegating { balance, target, conviction },
        )
    }

    /// Why taking back the delegation of `who` is refused, if it is.
    pub open spec fn undelegate_error(self, who: u64) -> Option<Error> {
        if self.commitments[who] is Delegating {
            None
        } else {
            Some(Error::NotDelegating)
        }
    }

    /// The state after the locks of `who` that have expired at block `now` were dropped.
    pub open spec fn after_unlock(self, who: u64, now: u64) -> LedgerView {
        LedgerView { locks: released(self.locks, who, now), ..self }
    }

    /// The state after a referendum was opened.
    pub open spec fn after_inject(self, end: u64, threshold: VoteThreshold, weight: VoteWeight)
        -> LedgerView {
        LedgerView {
            referendums: self.referendums.push(Referendum::Ongoing { end, threshold, weight }),
            ..self
        }
    }

    /// The totals of `r` as a tally of 128-bit numbers.
    pub open spec fn stored_tally(self, r: u32) -> Tally {
        Tally {
            ayes: self.tally_of(r).ayes as u128,
            nays: self.tally_of(r).nays as u128,
            turnout: self.tally_of(r).turnout as u128,
        }
    }

    /// What is known of referendum `r`: the referendum with its totals.
    pub open spec fn info_of(self, r: u32) -> ReferendumInfo {
        match self.referendums[r as int] {
            Referendum::Ongoing { end, threshold, weight } => ReferendumInfo::Ongoing(
                ReferendumStatus { end, threshold, weight, tally: self.stored_tally(r) },
            ),
            Referendum::Finished { approved, end, tally } => ReferendumInfo::Finished {
                approved,
                end,
                tally,
            },
        }
    }

    /// Whether `r`, closed now with the electorate `electorate`, is approved.
    pub open spec fn approves(self, r: u32, electorate: u128) -> bool {
        match self.referendums[r as int] {
            Referendum::Ongoing { threshold, .. } => threshold.spec_approved(
                self.stored_tally(r),
                electorate,
            ),
            Referendum::Finished { approved, .. } => approved,
        }
    }

    /// Why closing `r` is refused, if it is.
    pub open spec fn close_error(self, r: u32) -> Option<Error> {
        if r >= self.referendums.len() {
            Some(Error::ReferendumNotFound)
        } else if !self.is_ongoing(r) {
            Some(Error::ReferendumClosed)
        } else {
            None
        }
    }

    /// The state after `r` was closed: its totals are final and the decision is taken.
    pub open spec fn after_close(self, r: u32, electorate: u128) -> LedgerView {
        LedgerView {
            referendums: self.referendums.update(
                r as int,
                Referendum::Finished {
                    approved: self.approves(r, electorate),
                    end: self.referendums[r as int].end(),
                    tally: self.stored_tally(r),
                },
            ),
            ..self
        }
    }
}

} // verus!
