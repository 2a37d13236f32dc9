//! The voting record of one account.

use vstd::prelude::*;
use crate::conviction::Conviction;
use crate::model::Commitment;
use crate::types::Delegations;
use crate::votes::Votes;

verus! {

/// The voting record of one account: either its own votes, or its delegation. Both forms
/// carry the voting power that other accounts have delegated to this one.
pub enum Voting {
    /// The account votes itself.
    Direct { votes: Votes, delegations: Delegations<u128> },
    /// The account has handed `balance`, scaled by `conviction`, to `target`.
    Delegating {
        balance: u64,
        target: u64,
        conviction: Conviction,
        delegations: Delegations<u128>,
    },
}

impl View for Voting {
    type V = Commitment;

    /// What the account has committed its balance to.
    open spec fn view(&self) -> Commitment {
        match *self {
            Voting::Direct { votes, .. } => Commitment::Direct { votes: votes@ },
            Voting::Delegating { balance, target, conviction, .. } => Commitment::Delegating {
                balance,
                target,
                conviction,
            },
        }
    }
}

impl Voting {
    /// Well-formedness: that of the votes.
    pub open spec fn wf(&self) -> bool {
        match *self {
            Voting::Direct { votes, .. } => votes.wf(),
            Voting::Delegating { .. } => true,
        }
    }

    /// The voting power that other accounts have delegated to this one.
    pub open spec fn delegations(&self) -> Delegations<u128> {
        match *self {
            Voting::Direct { delegations, .. } => delegations,
            Voting::Delegating { delegations, .. } => delegations,
        }
    }

    /// The record of an account that has neither voted nor delegated, and to which nothing
    /// is delegated.
    pub fn idle() -> (record: Voting)
        ensures
            record.wf(),
            record@ == Commitment::idle(),
            record.delegations() == (Delegations::<u128> { votes: 0, capital: 0 }),
    {
        Voting::Direct { votes: Votes::new(), delegations: Delegations { votes: 0, capital: 0 } }
    }
}

} // verus!
