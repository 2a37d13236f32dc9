//! The votes an account can cast.

use vstd::prelude::*;
use crate::conviction::Conviction;
use crate::types::Lock;

verus! {

/// A direction together with the conviction behind it.
#[derive(Clone, Copy, Debug, PartialEq, Eq, Structural)]
pub struct Vote {
    /// Whether the vote approves.
    pub aye: bool,
    /// The commitment level of the voter.
    pub conviction: Conviction,
}

/// What a voter submits on one referendum.
#[derive(Clone, Copy, Debug, PartialEq, Eq)]
pub enum AccountVote<Balance> {
    /// The whole balance goes one way, with a conviction.
    Standard { vote: Vote, balance: Balance },
    /// The balance is divided between both directions; no conviction applies.
    Split { aye: Balance, nay: Balance },
}

/// A vote after a weighting strategy was applied: the shape of the vote is kept, and each
/// balance is accompanied by its weight.
#[derive(Clone, Copy, Debug, PartialEq, Eq)]
pub enum AccountVoteWeight<Balance> {
    /// A standard vote and the weight of its balance.
    Standard { vote: Vote, balance: Balance, weighted_balance: Balance },
    /// A split vote and the weight of each part.
    Split { aye: Balance, nay: Balance, aye_weight: Balance, nay_weight: Balance },
}

/// A vote as the ledger records it: the vote, and the block until which its balance would
/// stay locked.
#[derive(Clone, Copy, Debug, PartialEq, Eq)]
pub struct DirectVote {
    /// The vote that was cast.
    pub vote: AccountVote<u64>,
    /// The end of the referendum plus the lock periods of the vote's conviction.
    pub locked_until: u64,
}

impl DirectVote {
    /// The lock that the vote has taken on the balance of `who`: a standard vote with a
    /// conviction locks its balance until `locked_until`; other votes take no lock.
    pub open spec fn spec_lock(self, who: u64) -> Option<Lock> {
        match self.vote {
            AccountVote::Standard { vote, balance } => if vote.conviction.spec_lock_periods() > 0 {
                Some(Lock { who, amount: balance, until: self.locked_until })
            } else {
                None
            },
            AccountVote::Split { .. } => None,
        }
    }

    /// The lock that the vote has taken on the balance of `who`, if it has taken one.
    pub fn lock(self, who: u64) -> (lock: Option<Lock>)
        ensures
            lock == self.spec_lock(who),
    {
        match self.vote {
            AccountVote::Standard { vote, balance } => if vote.conviction.lock_periods() > 0 {
                Some(Lock { who, amount: balance, until: self.locked_until })
            } else {
                None
            },
            AccountVote::Split { .. } => None,
        }
    }
}

impl AccountVote<u64> {
    /// The raw balance that the vote commits.
    pub open spec fn spec_balance(self) -> nat {
        match self {
            AccountVote::Standard { balance, .. } => balance as nat,
            AccountVote::Split { aye, nay } => (aye + nay) as nat,
        }
    }

    /// The direction of a standard vote; nothing for a split vote.
    pub open spec fn spec_as_standard(self) -> Option<bool> {
        match self {
            AccountVote::Standard { vote, .. } => Some(vote.aye),
            AccountVote::Split { .. } => None,
        }
    }

    /// The conviction of a standard vote; `Conviction::Unlocked` for a split vote.
    pub open spec fn spec_conviction(self) -> Conviction {
        match self {
            AccountVote::Standard { vote, .. } => vote.conviction,
            AccountVote::Split { .. } => Conviction::Unlocked,
        }
    }

    /// The raw balance that the vote commits.
    pub fn balance(self) -> (total: u128)
        ensures
            total == self.spec_balance(),
    {
        match self {
            AccountVote::Standard { balance, .. } => balance as u128,
            AccountVote::Split { aye, nay } => aye as u128 + nay as u128,
        }
    }

    /// The direction of a standard vote; nothing for a split vote.
    pub fn as_standard(self) -> (direction: Option<bool>)
        ensures
            direction == self.spec_as_standard(),
    {
        match self {
            AccountVote::Standard { vote, .. } => Some(vote.aye),
            AccountVote::Split { .. } => None,
        }
    }

    /// The conviction of a standard vote; `Conviction::Unlocked` for a split vote.
    pub fn conviction(self) -> (conviction: Conviction)
        ensures
            conviction == self.spec_conviction(),
    {
        match self {
            AccountVote::Standard { vote, .. } => vote.conviction,
            AccountVote::Split { .. } => Conviction::Unlocked,
        }
    }
}

} // verus!
