//! The building blocks of the ledger on given values: the votes of one account, its voting
//! record, and the set of locks.

use quadratic_democracy::conviction::Conviction;
use quadratic_democracy::locks::LockSet;
use quadratic_democracy::types::Lock;
use quadratic_democracy::vote::{AccountVote, DirectVote, Vote};
use quadratic_democracy::votes::Votes;
use quadratic_democracy::voting::Voting;

fn entry(aye: bool, conviction: Conviction, balance: u64, locked_until: u64) -> DirectVote {
    DirectVote {
        vote: AccountVote::Standard { vote: Vote { aye, conviction }, balance },
        locked_until,
    }
}

#[test]
fn votes_are_kept_in_the_order_of_the_referendums() {
    let mut votes = Votes::new();
    assert_eq!(votes.len(), 0);
    let third = entry(true, Conviction::Locked1x, 30, 9);
    let first = entry(false, Conviction::Unlocked, 10, 4);
    let second = entry(true, Conviction::Locked6x, 20, 70);
    votes.insert(7, third);
    votes.insert(2, first);
    votes.insert(5, second);
    assert_eq!(votes.len(), 3);
    assert_eq!(votes.entry(0), (2, first));
    assert_eq!(votes.entry(1), (5, second));
    assert_eq!(votes.entry(2), (7, third));
    assert_eq!(votes.get(5), Some(second));
    assert_eq!(votes.get(6), None);
}

#[test]
fn a_vote_on_the_same_referendum_takes_the_place_of_the_earlier_one() {
    let mut votes = Votes::new();
    let earlier = entry(true, Conviction::Locked1x, 30, 9);
    let later = entry(false, Conviction::Locked2x, 40, 11);
    votes.insert(3, earlier);
    votes.insert(1, earlier);
    votes.insert(3, later);
    assert_eq!(votes.len(), 2);
    assert_eq!(votes.get(3), Some(later));
    assert_eq!(votes.get(1), Some(earlier));
}

#[test]
fn removed_votes_are_returned() {
    let mut votes = Votes::new();
    let one = entry(true, Conviction::Locked1x, 30, 9);
    let other = entry(false, Conviction::Locked2x, 40, 11);
    votes.insert(0, one);
    votes.insert(u32::MAX, other);
    assert_eq!(votes.remove(1), None);
    assert_eq!(votes.len(), 2);
    assert_eq!(votes.remove(0), Some(one));
    assert_eq!(votes.remove(0), None);
    assert_eq!(votes.len(), 1);
    assert_eq!(votes.entry(0), (u32::MAX, other));
    assert_eq!(votes.remove(u32::MAX), Some(other));
    assert_eq!(votes.len(), 0);
}

#[test]
fn only_standard_votes_with_conviction_take_a_lock() {
    assert_eq!(
        entry(true, Conviction::Locked2x, 40, 11).lock(7),
        Some(Lock { who: 7, amount: 40, until: 11 })
    );
    assert_eq!(entry(true, Conviction::Unlocked, 40, 11).lock(7), None);
    let split = DirectVote { vote: AccountVote::Split { aye: 30, nay: 10 }, locked_until: 11 };
    assert_eq!(split.lock(7), None);
}

#[test]
fn an_idle_record_is_direct_and_empty() {
    match Voting::idle() {
        Voting::Direct { votes, delegations } => {
            assert_eq!(votes.len(), 0);
            assert_eq!(delegations.votes, 0);
            assert_eq!(delegations.capital, 0);
        },
        Voting::Delegating { .. } => panic!("an idle account does not delegate"),
    }
}

#[test]
fn locks_are_held_in_the_order_in_which_they_were_taken() {
    let mut locks = LockSet::new();
    let a = Lock { who: 1, amount: 10, until: 5 };
    let b = Lock { who: 2, amount: 20, until: 3 };
    let c = Lock { who: 1, amount: 30, until: 9 };
    locks.record(a);
    locks.record(b);
    locks.record(c);
    locks.record(a);
    assert_eq!(locks.of(1), vec![a, c, a]);
    assert_eq!(locks.of(2), vec![b]);
    assert_eq!(locks.of(3), vec![]);
    assert_eq!(locks.locked(1), 30);
    assert_eq!(locks.locked(2), 20);
    assert_eq!(locks.locked(3), 0);
}

#[test]
fn superseding_takes_the_first_of_equal_locks() {
    let mut locks = LockSet::new();
    let a = Lock { who: 1, amount: 10, until: 5 };
    let b = Lock { who: 1, amount: 10, until: 6 };
    locks.record(a);
    locks.record(b);
    locks.record(a);
    locks.supersede(a);
    assert_eq!(locks.of(1), vec![b, a]);
    locks.supersede(Lock { who: 1, amount: 11, until: 5 });
    assert_eq!(locks.of(1), vec![b, a]);
    locks.supersede(a);
    locks.supersede(a);
    assert_eq!(locks.of(1), vec![b]);
}

#[test]
fn releasing_drops_the_expired_locks_of_one_account() {
    let mut locks = LockSet::new();
    locks.record(Lock { who: 1, amount: 10, until: 5 });
    locks.record(Lock { who: 2, amount: 20, until: 3 });
    locks.record(Lock { who: 1, amount: 30, until: 9 });
    locks.record(Lock { who: 1, amount: 40, until: 6 });
    locks.release(1, 4);
    assert_eq!(locks.of(1).len(), 3);
    locks.release(1, 6);
    assert_eq!(locks.of(1), vec![Lock { who: 1, amount: 30, until: 9 }]);
    assert_eq!(locks.of(2), vec![Lock { who: 2, amount: 20, until: 3 }]);
    locks.release(2, 3);
    assert_eq!(locks.of(2), vec![]);
    assert_eq!(locks.locked(1), 30);
}
