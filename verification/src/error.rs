//! Why an action was refused.

use vstd::prelude::*;

verus! {

/// The reasons for which the ledger refuses an action. A refused action changes nothing.
#[derive(Clone, Copy, Debug, PartialEq, Eq, Structural)]
pub enum Error {
    /// The action makes no sense: an account delegating to itself, the removal of a vote
    /// that was never cast, or a question about the outcome of a referendum that is still
    /// open.
    Nonsense,
    /// The balance to commit exceeds the free balance of the account.
    InsufficientFunds,
    /// The account has delegated its voting power and cannot vote itself.
    AlreadyDelegating,
    /// The account has not delegated its voting power.
    NotDelegating,
    /// No referendum has this index.
    ReferendumNotFound,
    /// The referendum is no longer open.
    ReferendumClosed,
}

} // verus!
