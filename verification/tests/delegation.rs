//! Delegation: how delegated balance counts behind the votes of the delegate.

use quadratic_democracy::conviction::Conviction;
use quadratic_democracy::error::Error;
use quadratic_democracy::ledger::Ledger;
use quadratic_democracy::types::{Delegations, Tally};
use quadratic_democracy::vote::{AccountVote, Vote};
use quadratic_democracy::vote_threshold::VoteThreshold;
use quadratic_democracy::vote_weight::VoteWeight;

/// Accounts 1 to 6 hold 100 to 600.
fn free_balance(who: u64) -> u64 {
    100 * who
}

fn aye(who: u64) -> AccountVote<u64> {
    AccountVote::Standard {
        vote: Vote { aye: true, conviction: Conviction::Unlocked },
        balance: free_balance(who),
    }
}

fn nay(who: u64) -> AccountVote<u64> {
    AccountVote::Standard {
        vote: Vote { aye: false, conviction: Conviction::Unlocked },
        balance: free_balance(who),
    }
}

fn new_ledger() -> Ledger {
    Ledger::new(VoteWeight::Quadratic, 2)
}

/// The first referendum: it opens at block 2 and ends at block 4.
fn begin_referendum(ledger: &mut Ledger) -> u32 {
    ledger
        .inject_referendum(4, VoteThreshold::SuperMajorityApprove, VoteWeight::Quadratic)
        .unwrap()
}

fn tally(ledger: &Ledger, r: u32) -> Tally {
    ledger.tally(r).unwrap()
}

#[test]
fn single_proposal_should_work_with_delegation() {
    let mut ledger = new_ledger();
    let r = begin_referendum(&mut ledger);

    // Delegate first vote.
    assert_eq!(ledger.delegate(2, 1, Conviction::Unlocked, 20, free_balance(2), 2), Ok(()));
    assert_eq!(r, 0);
    assert_eq!(ledger.vote(1, r, aye(1), free_balance(1)), Ok(()));
    assert_eq!(tally(&ledger, r), Tally { ayes: 2, nays: 0, turnout: 120 });

    // Delegate a second vote.
    assert_eq!(ledger.delegate(3, 1, Conviction::Unlocked, 30, free_balance(3), 2), Ok(()));
    assert_eq!(tally(&ledger, r), Tally { ayes: 3, nays: 0, turnout: 150 });

    // Reduce first vote.
    assert_eq!(ledger.delegate(2, 1, Conviction::Unlocked, 10, free_balance(2), 2), Ok(()));
    assert_eq!(tally(&ledger, r), Tally { ayes: 3, nays: 0, turnout: 140 });

    // Second vote delegates to first; there is no tiered delegation, so it is not used.
    assert_eq!(ledger.delegate(3, 2, Conviction::Unlocked, 30, free_balance(3), 2), Ok(()));
    assert_eq!(tally(&ledger, r), Tally { ayes: 2, nays: 0, turnout: 110 });

    // Main voter cancels their vote.
    assert_eq!(ledger.remove_vote(1, r), Ok(()));
    assert_eq!(tally(&ledger, r), Tally { ayes: 0, nays: 0, turnout: 0 });

    // First delegator delegates half funds with conviction; nothing changes yet.
    assert_eq!(ledger.delegate(2, 1, Conviction::Locked1x, 10, free_balance(2), 2), Ok(()));
    assert_eq!(tally(&ledger, r), Tally { ayes: 0, nays: 0, turnout: 0 });

    // Main voter reinstates their vote.
    assert_eq!(ledger.vote(1, r, aye(1), free_balance(1)), Ok(()));
    assert_eq!(tally(&ledger, r), Tally { ayes: 4, nays: 0, turnout: 110 });
}

#[test]
fn self_delegation_not_allowed() {
    let mut ledger = new_ledger();
    assert_eq!(
        ledger.delegate(1, 1, Conviction::Unlocked, 10, free_balance(1), 1),
        Err(Error::Nonsense)
    );
    // Nothing has changed.
    assert_eq!(ledger.delegation_of(1), None);
    assert_eq!(ledger.delegations_to(1), Delegations { votes: 0, capital: 0 });
    assert_eq!(ledger.locks_of(1), vec![]);
    assert_eq!(ledger.referendum_count(), 0);
}

#[test]
fn cyclic_delegation_should_unwind() {
    let mut ledger = new_ledger();
    let r = begin_referendum(&mut ledger);

    // Check behavior with cycle.
    assert_eq!(ledger.delegate(2, 1, Conviction::Unlocked, 20, free_balance(2), 2), Ok(()));
    assert_eq!(ledger.delegate(4, 2, Conviction::Unlocked, 30, free_balance(4), 2), Ok(()));
    assert_eq!(ledger.delegate(1, 4, Conviction::Unlocked, 10, free_balance(1), 2), Ok(()));
    assert_eq!(r, 0);
    assert_eq!(ledger.undelegate(4, 2), Ok(()));
    assert_eq!(ledger.vote(4, r, aye(4), free_balance(4)), Ok(())); // aye 2
    assert_eq!(ledger.undelegate(1, 2), Ok(()));
    assert_eq!(ledger.vote(1, r, nay(1), free_balance(1)), Ok(())); // nay 1

    // Delegated vote is counted: account 4 commits 400, account 1 commits 100, and the 20
    // that account 2 delegates to account 1 stand behind the vote of account 1.
    assert_eq!(tally(&ledger, r), Tally { ayes: 2, nays: 2, turnout: 520 });
}

#[test]
fn single_proposal_should_work_with_vote_and_delegation() {
    // If transactor already voted, delegated vote is overwritten.
    let mut ledger = new_ledger();
    let r = begin_referendum(&mut ledger);

    assert_eq!(r, 0);
    assert_eq!(ledger.vote(1, r, aye(1), free_balance(1)), Ok(()));
    assert_eq!(ledger.vote(2, r, nay(2), free_balance(2)), Ok(()));
    assert_eq!(tally(&ledger, r), Tally { ayes: 1, nays: 1, turnout: 300 });

    // Delegate vote.
    assert_eq!(ledger.remove_vote(2, r), Ok(()));
    assert_eq!(ledger.delegate(2, 1, Conviction::Unlocked, 20, free_balance(2), 2), Ok(()));
    // Delegated vote replaces the explicit vote.
    assert_eq!(tally(&ledger, r), Tally { ayes: 2, nays: 0, turnout: 120 });
}

#[test]
fn single_proposal_should_work_with_undelegation() {
    let mut ledger = new_ledger();

    // Delegate and undelegate vote.
    assert_eq!(ledger.delegate(2, 1, Conviction::Unlocked, 20, free_balance(2), 0), Ok(()));
    assert_eq!(ledger.undelegate(2, 0), Ok(()));

    let r = begin_referendum(&mut ledger);
    assert_eq!(r, 0);
    assert_eq!(ledger.vote(1, r, aye(1), free_balance(1)), Ok(()));

    // Delegated vote is not counted.
    assert_eq!(tally(&ledger, r), Tally { ayes: 1, nays: 0, turnout: 100 });
}

#[test]
fn single_proposal_should_work_with_delegation_and_vote() {
    // If transactor voted, delegated vote is overwritten.
    let mut ledger = new_ledger();
    let r = begin_referendum(&mut ledger);
    // Delegate, undelegate and vote.
    assert_eq!(ledger.vote(1, r, aye(1), free_balance(1)), Ok(()));
    assert_eq!(ledger.delegate(2, 1, Conviction::Unlocked, 20, free_balance(2), 2), Ok(()));
    assert_eq!(tally(&ledger, r), Tally { ayes: 2, nays: 0, turnout: 120 });
    assert_eq!(ledger.undelegate(2, 2), Ok(()));
    assert_eq!(ledger.vote(2, r, aye(2), free_balance(2)), Ok(()));
    // Delegated vote is not counted.
    assert_eq!(tally(&ledger, r), Tally { ayes: 2, nays: 0, turnout: 300 });
}

#[test]
fn conviction_should_be_honored_in_delegation() {
    // If transactor voted, delegated vote is overwritten.
    let mut ledger = new_ledger();
    let r = begin_referendum(&mut ledger);
    // Delegate, undelegate and vote.
    assert_eq!(ledger.delegate(2, 1, Conviction::Locked6x, 20, free_balance(2), 2), Ok(()));
    assert_eq!(ledger.vote(1, r, aye(1), free_balance(1)), Ok(()));
    // Delegated vote is huge.
    assert_eq!(tally(&ledger, r), Tally { ayes: 11, nays: 0, turnout: 120 });
}

#[test]
fn split_vote_delegation_should_be_ignored() {
    // If transactor voted, delegated vote is overwritten.
    let mut ledger = new_ledger();
    let r = begin_referendum(&mut ledger);
    assert_eq!(ledger.delegate(2, 1, Conviction::Locked6x, 20, free_balance(2), 2), Ok(()));
    assert_eq!(
        ledger.vote(1, r, AccountVote::Split { aye: 100, nay: 0 }, free_balance(1)),
        Ok(())
    );
    // Delegated vote is huge.
    assert_eq!(tally(&ledger, r), Tally { ayes: 1, nays: 0, turnout: 100 });
}
