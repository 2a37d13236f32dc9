//! Aggregates: delegated weight and referendum tallies.

use vstd::prelude::*;
use crate::vote::AccountVoteWeight;
use crate::vote_threshold::VoteThreshold;
use crate::vote_weight::VoteWeight;

verus! {

/// Voting power handed over by delegation: the weighted votes and the raw capital behind them.
#[derive(Clone, Copy, Debug, PartialEq, Eq)]
pub struct Delegations<Balance> {
    /// Weighted votes.
    pub votes: Balance,
    /// Raw balance.
    pub capital: Balance,
}

/// Unbounded totals of one referendum, or of one contribution to it.
pub struct TallyView {
    /// Weighted approving votes.
    pub ayes: int,
    /// Weighted rejecting votes.
    pub nays: int,
    /// Raw balance committed.
    pub turnout: int,
}

impl TallyView {
    /// The contribution that changes nothing.
    pub open spec fn zero() -> TallyView {
        TallyView { ayes: 0, nays: 0, turnout: 0 }
    }

    /// The sum of two contributions, field by field.
    pub open spec fn plus(self, other: TallyView) -> TallyView {
        TallyView {
            ayes: self.ayes + other.ayes,
            nays: self.nays + other.nays,
            turnout: self.turnout + other.turnout,
        }
    }

    /// The difference of two contributions, field by field.
    pub open spec fn minus(self, other: TallyView) -> TallyView {
        TallyView {
            ayes: self.ayes - other.ayes,
            nays: self.nays - other.nays,
            turnout: self.turnout - other.turnout,
        }
    }

    /// Whether every field fits in 128 bits.
    pub open spec fn fits(self) -> bool {
        &&& 0 <= self.ayes <= u128::MAX
        &&& 0 <= self.nays <= u128::MAX
        &&& 0 <= self.turnout <= u128::MAX
    }

    /// Whether no field of `other` exceeds the same field of `self`.
    pub open spec fn covers(self, other: TallyView) -> bool {
        &&& other.ayes <= self.ayes
        &&& other.nays <= self.nays
        &&& other.turnout <= self.turnout
    }

    /// What a weighted vote adds to a tally: the conviction scales the weight of a standard
    /// vote, each part of a split vote counts a tenth of its weight, and the turnout grows by
    /// the raw balance.
    pub open spec fn of_vote(w: AccountVoteWeight<u64>) -> TallyView {
        match w {
            AccountVoteWeight::Standard { vote, balance, weighted_balance } => {
                let votes = vote.conviction.spec_votes(weighted_balance as nat) as int;
                TallyView {
                    ayes: if vote.aye { votes } else { 0 },
                    nays: if vote.aye { 0 } else { votes },
                    turnout: balance as int,
                }
            },
            AccountVoteWeight::Split { aye, nay, aye_weight, nay_weight } => TallyView {
                ayes: aye_weight as int / 10,
                nays: nay_weight as int / 10,
                turnout: aye + nay,
            },
        }
    }

    /// What delegated weight adds to the tally of a referendum on which the delegate voted
    /// in the direction `approve`.
    pub open spec fn of_delegations(approve: bool, votes: int, capital: int) -> TallyView {
        TallyView {
            ayes: if approve { votes } else { 0 },
            nays: if approve { 0 } else { votes },
            turnout: capital,
        }
    }
}

/// The running totals of one referendum.
#[derive(Clone, Copy, Debug, PartialEq, Eq)]
pub struct Tally {
    /// Weighted approving votes.
    pub ayes: u128,
    /// Weighted rejecting votes.
    pub nays: u128,
    /// Raw balance committed.
    pub turnout: u128,
}

impl View for Tally {
    type V = TallyView;

    /// The totals as unbounded numbers.
    open spec fn view(&self) -> TallyView {
        TallyView { ayes: self.ayes as int, nays: self.nays as int, turnout: self.turnout as int }
    }
}

impl Tally {
    /// The empty tally.
    pub fn zero() -> (t: Tally)
        ensures
            t@ == TallyView::zero(),
    {
        Tally { ayes: 0, nays: 0, turnout: 0 }
    }

    /// The contribution of a weighted vote.
    pub fn from_vote(w: AccountVoteWeight<u64>) -> (t: Tally)
        ensures
            t@ == TallyView::of_vote(w),
    {
        match w {
            AccountVoteWeight::Standard { vote, balance, weighted_balance } => {
                let votes = vote.conviction.votes(weighted_balance).votes as u128;
                Tally {
                    ayes: if vote.aye { votes } else { 0 },
                    nays: if vote.aye { 0 } else { votes },
                    turnout: balance as u128,
                }
            },
            AccountVoteWeight::Split { aye, nay, aye_weight, nay_weight } => Tally {
                ayes: (aye_weight / 10) as u128,
                nays: (nay_weight / 10) as u128,
                turnout: aye as u128 + nay as u128,
            },
        }
    }

    /// The contribution of delegated weight behind a standard vote in the direction `approve`.
    pub fn from_delegations(approve: bool, delegations: Delegations<u128>) -> (t: Tally)
        ensures
            t@ == TallyView::of_delegations(
                approve,
                delegations.votes as int,
                delegations.capital as int,
            ),
    {
        Tally {
            ayes: if approve { delegations.votes } else { 0 },
            nays: if approve { 0 } else { delegations.votes },
            turnout: delegations.capital,
        }
    }

    /// Adds a contribution. Nothing changes, and `None` is returned, when a total would no
    /// longer fit.
    pub fn add(&mut self, contribution: Tally) -> (done: Option<()>)
        ensures
            done is Some <==> old(self)@.plus(contribution@).fits(),
            done is Some ==> final(self)@ == old(self)@.plus(contribution@),
            done is None ==> *final(self) == *old(self),
    {
        let ayes = self.ayes.checked_add(contribution.ayes);
        let nays = self.nays.checked_add(contribution.nays);
        let turnout = self.turnout.checked_add(contribution.turnout);
        match (ayes, nays, turnout) {
            (Some(ayes), Some(nays), Some(turnout)) => {
                self.ayes = ayes;
                self.nays = nays;
                self.turnout = turnout;
                Some(())
            },
            _ => None,
        }
    }

    /// Takes a contribution back. Nothing changes, and `None` is returned, when the tally
    /// does not hold that much.
    pub fn remove(&mut self, contribution: Tally) -> (done: Option<()>)
        ensures
            done is Some <==> old(self)@.covers(contribution@),
            done is Some ==> final(self)@ == old(self)@.minus(contribution@),
            done is None ==> *final(self) == *old(self),
    {
        let ayes = self.ayes.checked_sub(contribution.ayes);
        let nays = self.nays.checked_sub(contribution.nays);
        let turnout = self.turnout.checked_sub(contribution.turnout);
        match (ayes, nays, turnout) {
            (Some(ayes), Some(nays), Some(turnout)) => {
                self.ayes = ayes;
                self.nays = nays;
                self.turnout = turnout;
                Some(())
            },
            _ => None,
        }
    }
}

/// A restriction on an account's balance: `amount` stays locked until block `until`.
#[derive(Clone, Copy, Debug, PartialEq, Eq, Structural)]
pub struct Lock {
    /// The account whose balance is locked.
    pub who: u64,
    /// The raw balance that is locked.
    pub amount: u64,
    /// The first block at which the lock no longer holds.
    pub until: u64,
}

/// An open referendum.
#[derive(Clone, Copy, Debug, PartialEq, Eq)]
pub struct ReferendumStatus {
    /// The block at which voting ends.
    pub end: u64,
    /// The rule that decides approval.
    pub threshold: VoteThreshold,
    /// The strategy that weighs the votes cast on this referendum.
    pub weight: VoteWeight,
    /// The running totals.
    pub tally: Tally,
}

/// What is known of a referendum.
#[derive(Clone, Copy, Debug, PartialEq, Eq)]
pub enum ReferendumInfo {
    /// Voting is open.
    Ongoing(ReferendumStatus),
    /// Voting is over: the decision, the block at which voting ended, and the final totals.
    Finished { approved: bool, end: u64, tally: Tally },
}

} // verus!
