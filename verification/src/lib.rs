//! Vote aggregation and delegation core of a stake-weighted governance engine.
//!
//! Accounts cast balance-weighted votes on referendums or delegate their voting power to
//! another account. Votes are weighed linearly or quadratically, scaled by the conviction of
//! the voter, and accumulated into one tally for each referendum. All arithmetic is exact
//! integer arithmetic.
//!
//! # Rules
//!
//! * **Weight.** A weighting strategy maps a balance to its weight: the balance itself
//!   ([`vote_weight::VoteWeight::Standard`]) or its integer square root
//!   ([`vote_weight::VoteWeight::Quadratic`]). Each referendum names the strategy for the
//!   votes cast on it; the ledger names the strategy for delegated voting power.
//! * **Direct votes.** A standard vote adds its weight, scaled by its conviction, to the ayes
//!   or to the nays; each part of a split vote adds a tenth of its weight to its side. The
//!   turnout grows by the raw balance.
//! * **Delegations.** A delegation hands over the weight of its conviction-scaled balance,
//!   together with the raw balance as capital. What is delegated to an account counts behind
//!   every standard vote of that account, on the side of the vote, and not behind its split
//!   votes. Delegation reaches one step: what is delegated to an account that delegates
//!   itself stays with that account, unused. No walk over delegations is ever made, so
//!   chains and cycles of delegations are harmless.
//! * **Conviction.** [`conviction::Conviction`] gives the multiplier and the number of lock
//!   periods of each level. Scaling rounds down and saturates at the largest 64-bit value.
//! * **Locks.** A standard vote with a conviction locks its balance until the end of the
//!   referendum plus its lock periods. A new vote on the same referendum supersedes the lock
//!   of the vote it replaces; the removal of a vote leaves its lock. A delegation with a
//!   conviction leaves, when it is withdrawn, a lock that runs from the block of the
//!   withdrawal. Expired locks are dropped on request.
//! * **Thresholds.** [`vote_threshold::VoteThreshold`] gives the comparison by which the
//!   final tally decides approval.
//!
//! # Structure
//!
//! [`ledger::Ledger`] is the executable ledger. Its contracts are stated over
//! [`model::LedgerView`], in which tallies and delegated voting power are sums over the
//! commitments of all accounts; [`accounting`] relates those sums to the incremental updates
//! that the ledger makes, and [`laws`] states what follows for every state.
//!
//! Balances and block numbers are 64-bit numbers, accounts are identified by 64-bit
//! numbers and referendums by 32-bit indices; tallies and delegated voting power are 128-bit
//! numbers, which the sums over all accounts cannot exceed.

pub mod accounting;
pub mod consistency;
pub mod conviction;
pub mod error;
pub mod laws;
pub mod ledger;
pub mod locks;
pub mod math;
pub mod model;
pub mod sums;
pub mod types;
pub mod vote;
pub mod vote_threshold;
pub mod vote_weight;
pub mod votes;
pub mod voting;
