//! Voting: how direct votes count, and how the final tally decides.

use quadratic_democracy::conviction::Conviction;
use quadratic_democracy::error::Error;
use quadratic_democracy::ledger::Ledger;
use quadratic_democracy::types::{ReferendumStatus, Tally};
use quadratic_democracy::vote::{AccountVote, Vote};
use quadratic_democracy::vote_threshold::VoteThreshold;
use quadratic_democracy::vote_weight::VoteWeight;

/// Accounts 1 to 6 hold 100 to 600.
fn free_balance(who: u64) -> u64 {
    100 * who
}

/// Everything that the six accounts hold.
fn total_issuance() -> u128 {
    (1..=6).map(|who| free_balance(who) as u128).sum()
}

fn standard(aye: bool, conviction: Conviction, who: u64) -> AccountVote<u64> {
    AccountVote::Standard { vote: Vote { aye, conviction }, balance: free_balance(who) }
}

fn aye(who: u64) -> AccountVote<u64> {
    standard(true, Conviction::Unlocked, who)
}

fn big_aye(who: u64) -> AccountVote<u64> {
    standard(true, Conviction::Locked1x, who)
}

fn big_nay(who: u64) -> AccountVote<u64> {
    standard(false, Conviction::Locked1x, who)
}

fn new_ledger() -> Ledger {
    Ledger::new(VoteWeight::Quadratic, 2)
}

/// The first referendum: it opens at block 2 and ends at block 4.
fn begin_referendum(ledger: &mut Ledger) -> u32 {
    ledger
        .inject_referendum(4, VoteThreshold::SuperMajorityApprove, VoteWeight::Quadratic)
        .unwrap()
}

fn tally(ledger: &Ledger, r: u32) -> Tally {
    ledger.tally(r).unwrap()
}

/// Closes the referendum at its end. Its proposal, once approved and enacted, sets the
/// balance of the account 42 to 2; the balance that this account has afterwards is returned.
fn balance_of_42_after_enactment(ledger: &mut Ledger, r: u32) -> u64 {
    match ledger.close_referendum(r, total_issuance()) {
        Ok(true) => 2,
        _ => 0,
    }
}

#[test]
fn overvoting_should_fail() {
    let mut ledger = new_ledger();
    let r = begin_referendum(&mut ledger);
    assert_eq!(ledger.vote(1, r, aye(2), free_balance(1)), Err(Error::InsufficientFunds));
    assert_eq!(tally(&ledger, r), Tally { ayes: 0, nays: 0, turnout: 0 });
    assert_eq!(ledger.vote_of(1, r), None);
}

#[test]
fn split_voting_should_work() {
    let mut ledger = new_ledger();
    let r = begin_referendum(&mut ledger);
    let v = AccountVote::Split { aye: 400, nay: 200 };
    assert_eq!(ledger.vote(5, r, v, free_balance(5)), Err(Error::InsufficientFunds));
    assert_eq!(tally(&ledger, r), Tally { ayes: 0, nays: 0, turnout: 0 });
    let v = AccountVote::Split { aye: 300, nay: 200 };
    assert_eq!(ledger.vote(5, r, v, free_balance(5)), Ok(()));

    // sqrt(300) -> 17, a tenth of it -> 1
    // sqrt(200) -> 14, a tenth of it -> 1
    assert_eq!(tally(&ledger, r), Tally { ayes: 1, nays: 1, turnout: 500 });
}

#[test]
fn split_vote_cancellation_should_work() {
    let mut ledger = new_ledger();
    let r = begin_referendum(&mut ledger);
    let v = AccountVote::Split { aye: 300, nay: 200 };
    assert_eq!(ledger.vote(5, r, v, free_balance(5)), Ok(()));
    assert_eq!(ledger.remove_vote(5, r), Ok(()));
    assert_eq!(tally(&ledger, r), Tally { ayes: 0, nays: 0, turnout: 0 });
    assert_eq!(ledger.unlock(5, 2), 0);
    assert_eq!(ledger.locks_of(5), vec![]);
}

#[test]
fn single_proposal_should_work() {
    let mut ledger = new_ledger();
    let r = 0;
    assert!(ledger.referendum_info(r).is_none());

    // start of 2 => next referendum scheduled.
    assert_eq!(begin_referendum(&mut ledger), r);
    assert_eq!(ledger.vote(1, r, aye(1), free_balance(1)), Ok(()));

    assert_eq!(ledger.referendum_count(), 1);
    assert_eq!(
        ledger.referendum_status(0),
        Ok(ReferendumStatus {
            end: 4,
            threshold: VoteThreshold::SuperMajorityApprove,
            weight: VoteWeight::Quadratic,
            tally: Tally { ayes: 1, nays: 0, turnout: 100 },
        })
    );

    // referendum still running
    assert!(ledger.referendum_status(0).is_ok());

    // referendum runs during 2 and 3, ends @ start of 4.
    let balance = balance_of_42_after_enactment(&mut ledger, r);

    assert!(ledger.referendum_status(0).is_err());
    assert_eq!(ledger.approved(0), Ok(true));

    // referendum passes and wait another two blocks for enactment.
    assert_eq!(balance, 2);
}

#[test]
fn controversial_voting_should_work() {
    let mut ledger = new_ledger();
    let r = ledger
        .inject_referendum(2, VoteThreshold::SuperMajorityApprove, VoteWeight::Quadratic)
        .unwrap();

    assert_eq!(ledger.vote(1, r, big_aye(1), free_balance(1)), Ok(())); // 100 * 1 => 10
    assert_eq!(ledger.vote(2, r, big_nay(2), free_balance(2)), Ok(())); // 200 * 1 => ~14
    assert_eq!(ledger.vote(3, r, big_nay(3), free_balance(3)), Ok(())); // 300 * 1 => ~17
    assert_eq!(ledger.vote(4, r, big_aye(4), free_balance(4)), Ok(())); // 400 * 1 => ~20
    assert_eq!(ledger.vote(5, r, big_nay(5), free_balance(5)), Ok(())); // 500 * 1 => ~22
    assert_eq!(ledger.vote(6, r, big_aye(6), free_balance(6)), Ok(())); // 600 * 1 => ~24

    // aye = 10 + 20 + 24 = 54
    // nay = 14 + 17 + 22 = 53

    assert_eq!(tally(&ledger, r), Tally { ayes: 54, nays: 53, turnout: 2100 });

    assert_eq!(balance_of_42_after_enactment(&mut ledger, r), 2);
}

#[test]
fn controversial_low_turnout_voting_should_work() {
    let mut ledger = new_ledger();
    let r = ledger
        .inject_referendum(2, VoteThreshold::SuperMajorityApprove, VoteWeight::Quadratic)
        .unwrap();
    assert_eq!(ledger.vote(5, r, big_nay(5), free_balance(5)), Ok(())); // 500 * 1 => 22
    assert_eq!(ledger.vote(6, r, big_aye(6), free_balance(6)), Ok(())); // 600 * 1 => 24

    assert_eq!(tally(&ledger, r), Tally { ayes: 24, nays: 22, turnout: 1100 });

    assert_eq!(balance_of_42_after_enactment(&mut ledger, r), 0);
}

#[test]
fn passing_low_turnout_voting_should_work() {
    let mut ledger = new_ledger();
    assert_eq!(ledger.referendum_count(), 0);
    assert_eq!(total_issuance(), 2100);

    let r = ledger
        .inject_referendum(2, VoteThreshold::SuperMajorityApprove, VoteWeight::Quadratic)
        .unwrap();
    assert_eq!(ledger.vote(4, r, big_aye(4), free_balance(4)), Ok(()));
    assert_eq!(ledger.vote(5, r, big_nay(5), free_balance(5)), Ok(()));
    assert_eq!(ledger.vote(6, r, big_aye(6), free_balance(6)), Ok(()));
    assert_eq!(tally(&ledger, r), Tally { ayes: 44, nays: 22, turnout: 1500 });

    assert_eq!(balance_of_42_after_enactment(&mut ledger, r), 2);
}
