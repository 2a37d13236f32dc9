//! Voting weight.

use vstd::prelude::*;
use crate::math::{isqrt, isqrt_u128, isqrt_u64};
use crate::types::Delegations;
use crate::vote::{AccountVote, AccountVoteWeight};

verus! {

/// A means of determining the weight of a vote.
#[derive(Clone, Copy, Debug, PartialEq, Eq, Structural)]
pub enum VoteWeight {
    /// One coin, one vote.
    Standard,
    /// The weight is the integer square root of the balance.
    Quadratic,
}

impl VoteWeight {
    /// The weight of `balance` under this strategy.
    pub open spec fn spec_weigh(self, balance: nat) -> nat {
        match self {
            VoteWeight::Standard => balance,
            VoteWeight::Quadratic => isqrt(balance),
        }
    }

    /// The weight of `balance` under this strategy.
    pub fn weigh(self, balance: u64) -> (weight: u64)
        ensures
            weight == self.spec_weigh(balance as nat),
    {
        match self {
            VoteWeight::Standard => balance,
            VoteWeight::Quadratic => isqrt_u64(balance),
        }
    }

    /// The weight of a 128-bit `balance` under this strategy.
    pub fn weigh_wide(self, balance: u128) -> (weight: u128)
        ensures
            weight == self.spec_weigh(balance as nat),
    {
        match self {
            VoteWeight::Standard => balance,
            VoteWeight::Quadratic => isqrt_u128(balance),
        }
    }
}

/// Weighs votes and delegated voting power.
pub trait Calculate<Balance> {
    /// The weighted form of `vote`.
    spec fn spec_calculate(&self, vote: AccountVote<Balance>) -> AccountVoteWeight<Balance>;

    /// The weighted form of `delegation`.
    spec fn spec_delegation(&self, delegation: Delegations<Balance>) -> Delegations<Balance>;

    /// Weighs a vote: the shape of the vote is kept, and each balance gets its weight.
    fn calculate(&self, vote: AccountVote<Balance>) -> (weighted: AccountVoteWeight<Balance>)
        ensures
            weighted == self.spec_calculate(vote),
    ;

    /// Weighs delegated voting power: the votes are weighed, the capital is kept.
    fn delegation(&self, delegation: Delegations<Balance>) -> (weighted: Delegations<Balance>)
        ensures
            weighted == self.spec_delegation(delegation),
    ;
}

impl Calculate<u64> for VoteWeight {
    open spec fn spec_calculate(&self, vote: AccountVote<u64>) -> AccountVoteWeight<u64> {
        match vote {
            AccountVote::Standard { vote, balance } => AccountVoteWeight::Standard {
                vote,
                balance,
                weighted_balance: self.spec_weigh(balance as nat) as u64,
            },
            AccountVote::Split { aye, nay } => AccountVoteWeight::Split {
                aye,
                nay,
                aye_weight: self.spec_weigh(aye as nat) as u64,
                nay_weight: self.spec_weigh(nay as nat) as u64,
            },
        }
    }

    open spec fn spec_delegation(&self, delegation: Delegations<u64>) -> Delegations<u64> {
        Delegations {
            votes: self.spec_weigh(delegation.votes as nat) as u64,
            capital: delegation.capital,
        }
    }

    fn calculate(&self, vote: AccountVote<u64>) -> (weighted: AccountVoteWeight<u64>) {
        match vote {
            AccountVote::Standard { vote, balance } => AccountVoteWeight::Standard {
                vote,
                balance,
                weighted_balance: self.weigh(balance),
            },
            AccountVote::Split { aye, nay } => AccountVoteWeight::Split {
                aye,
                nay,
                aye_weight: self.weigh(aye),
                nay_weight: self.weigh(nay),
            },
        }
    }

    fn delegation(&self, delegation: Delegations<u64>) -> (weighted: Delegations<u64>) {
        let Delegations { capital, votes } = delegation;
        Delegations { capital, votes: self.weigh(votes) }
    }
}

impl Calculate<u128> for VoteWeight {
    open spec fn spec_calculate(&self, vote: AccountVote<u128>) -> AccountVoteWeight<u128> {
        match vote {
            AccountVote::Standard { vote, balance } => AccountVoteWeight::Standard {
                vote,
                balance,
                weighted_balance: self.spec_weigh(balance as nat) as u128,
            },
            AccountVote::Split { aye, nay } => AccountVoteWeight::Split {
                aye,
                nay,
                aye_weight: self.spec_weigh(aye as nat) as u128,
                nay_weight: self.spec_weigh(nay as nat) as u128,
            },
        }
    }

    open spec fn spec_delegation(&self, delegation: Delegations<u128>) -> Delegations<u128> {
        Delegations {
            votes: self.spec_weigh(delegation.votes as nat) as u128,
            capital: delegation.capital,
        }
    }

    fn calculate(&self, vote: AccountVote<u128>) -> (weighted: AccountVoteWeight<u128>) {
        match vote {
            AccountVote::Standard { vote, balance } => AccountVoteWeight::Standard {
                vote,
                balance,
                weighted_balance: self.weigh_wide(balance),
            },
            AccountVote::Split { aye, nay } => AccountVoteWeight::Split {
                aye,
                nay,
                aye_weight: self.weigh_wide(aye),
                nay_weight: self.weigh_wide(nay),
            },
        }
    }

    fn delegation(&self, delegation: Delegations<u128>) -> (weighted: Delegations<u128>) {
        let Delegations { capital, votes } = delegation;
        Delegations { capital, votes: self.weigh_wide(votes) }
    }
}

} // verus!
