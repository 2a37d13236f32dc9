//! Convictions, weighting strategies, tallies and thresholds on given values.

use quadratic_democracy::conviction::Conviction;
use quadratic_democracy::math::{isqrt_u128, isqrt_u64};
use quadratic_democracy::types::{Delegations, Tally};
use quadratic_democracy::vote::{AccountVote, AccountVoteWeight, Vote};
use quadratic_democracy::vote_threshold::{compare_rationals, VoteThreshold};
use quadratic_democracy::vote_weight::{Calculate, VoteWeight};

fn levels() -> Vec<Conviction> {
    vec![
        Conviction::Unlocked,
        Conviction::Locked1x,
        Conviction::Locked2x,
        Conviction::Locked3x,
        Conviction::Locked4x,
        Conviction::Locked5x,
        Conviction::Locked6x,
    ]
}

#[test]
fn lock_periods_double_per_level() {
    let periods: Vec<u32> = levels().into_iter().map(|level| level.lock_periods()).collect();
    assert_eq!(periods, vec![0, 1, 2, 4, 8, 16, 32]);
}

#[test]
fn multipliers_are_a_tenth_and_one_to_six() {
    let multipliers: Vec<(u64, u64)> =
        levels().into_iter().map(|level| level.multiplier()).collect();
    assert_eq!(multipliers, vec![(1, 10), (1, 1), (2, 1), (3, 1), (4, 1), (5, 1), (6, 1)]);
}

#[test]
fn conviction_scales_the_capital() {
    assert_eq!(Conviction::Unlocked.votes(100), Delegations { votes: 10, capital: 100 });
    assert_eq!(Conviction::Unlocked.votes(9), Delegations { votes: 0, capital: 9 });
    assert_eq!(Conviction::Locked1x.votes(100), Delegations { votes: 100, capital: 100 });
    assert_eq!(Conviction::Locked6x.votes(20), Delegations { votes: 120, capital: 20 });
    assert_eq!(Conviction::Locked3x.votes(0), Delegations { votes: 0, capital: 0 });
}

#[test]
fn conviction_scaling_saturates() {
    assert_eq!(
        Conviction::Locked2x.votes(u64::MAX),
        Delegations { votes: u64::MAX, capital: u64::MAX }
    );
    assert_eq!(
        Conviction::Locked6x.votes(u64::MAX / 6 + 1),
        Delegations { votes: u64::MAX, capital: u64::MAX / 6 + 1 }
    );
    assert_eq!(
        Conviction::Locked6x.votes(u64::MAX / 6),
        Delegations { votes: u64::MAX / 6 * 6, capital: u64::MAX / 6 }
    );
    assert_eq!(
        Conviction::Unlocked.votes(u64::MAX),
        Delegations { votes: u64::MAX / 10, capital: u64::MAX }
    );
}

#[test]
fn lock_durations_and_expiries() {
    assert_eq!(Conviction::Unlocked.locked_for(7), 0);
    assert_eq!(Conviction::Locked1x.locked_for(7), 7);
    assert_eq!(Conviction::Locked3x.locked_for(10), 40);
    assert_eq!(Conviction::Locked6x.locked_for(3), 96);
    assert_eq!(Conviction::Locked6x.locked_for(u64::MAX), u64::MAX);
    assert_eq!(Conviction::Locked1x.lock_expiry(4, 2), 6);
    assert_eq!(Conviction::Locked2x.lock_expiry(4, 2), 8);
    assert_eq!(Conviction::Unlocked.lock_expiry(4, 2), 4);
    assert_eq!(Conviction::Locked6x.lock_expiry(u64::MAX - 1, 1), u64::MAX);
    assert_eq!(Conviction::Locked1x.lock_expiry(u64::MAX - 5, 5), u64::MAX);
}

#[test]
fn integer_square_roots_truncate() {
    let roots: Vec<u64> = vec![0, 1, 2, 3, 4, 8, 9, 99, 100, 120, 200, 300, 400, 500, 600]
        .into_iter()
        .map(isqrt_u64)
        .collect();
    assert_eq!(roots, vec![0, 1, 1, 1, 2, 2, 3, 9, 10, 10, 14, 17, 20, 22, 24]);
    assert_eq!(isqrt_u64(u64::MAX), 4_294_967_295);
    assert_eq!(isqrt_u128(2100), 45);
    assert_eq!(isqrt_u128(1 << 64), 1 << 32);
    assert_eq!(isqrt_u128((1 << 64) - 1), (1 << 32) - 1);
    assert_eq!(isqrt_u128(u128::MAX), 18_446_744_073_709_551_615);
}

#[test]
fn standard_weight_is_the_balance() {
    let vote = Vote { aye: true, conviction: Conviction::Locked2x };
    assert_eq!(
        VoteWeight::Standard.calculate(AccountVote::Standard { vote, balance: 300u64 }),
        AccountVoteWeight::Standard { vote, balance: 300, weighted_balance: 300 }
    );
    assert_eq!(
        VoteWeight::Standard.calculate(AccountVote::Split { aye: 300u64, nay: 200 }),
        AccountVoteWeight::Split { aye: 300, nay: 200, aye_weight: 300, nay_weight: 200 }
    );
    assert_eq!(
        VoteWeight::Standard.delegation(Delegations { votes: 120u64, capital: 20 }),
        Delegations { votes: 120, capital: 20 }
    );
}

#[test]
fn quadratic_weight_is_the_square_root() {
    let vote = Vote { aye: false, conviction: Conviction::Locked1x };
    assert_eq!(
        VoteWeight::Quadratic.calculate(AccountVote::Standard { vote, balance: 300u64 }),
        AccountVoteWeight::Standard { vote, balance: 300, weighted_balance: 17 }
    );
    assert_eq!(
        VoteWeight::Quadratic.calculate(AccountVote::Split { aye: 300u64, nay: 200 }),
        AccountVoteWeight::Split { aye: 300, nay: 200, aye_weight: 17, nay_weight: 14 }
    );
    assert_eq!(
        VoteWeight::Quadratic.delegation(Delegations { votes: 120u64, capital: 20 }),
        Delegations { votes: 10, capital: 20 }
    );
    assert_eq!(VoteWeight::Quadratic.weigh(u64::MAX), 4_294_967_295);
    assert_eq!(VoteWeight::Standard.weigh(u64::MAX), u64::MAX);
}

#[test]
fn wide_balances_are_weighed_alike() {
    let vote = Vote { aye: true, conviction: Conviction::Locked1x };
    let large = 1u128 << 100;
    assert_eq!(
        VoteWeight::Quadratic.calculate(AccountVote::Standard { vote, balance: large }),
        AccountVoteWeight::Standard { vote, balance: large, weighted_balance: 1 << 50 }
    );
    assert_eq!(
        VoteWeight::Quadratic.calculate(AccountVote::Split { aye: u128::MAX, nay: 300 }),
        AccountVoteWeight::Split {
            aye: u128::MAX,
            nay: 300,
            aye_weight: 18_446_744_073_709_551_615,
            nay_weight: 17,
        }
    );
    assert_eq!(
        VoteWeight::Standard.calculate(AccountVote::Split { aye: u128::MAX, nay: 300 }),
        AccountVoteWeight::Split {
            aye: u128::MAX,
            nay: 300,
            aye_weight: u128::MAX,
            nay_weight: 300,
        }
    );
    assert_eq!(
        VoteWeight::Quadratic.delegation(Delegations { votes: large + 1, capital: large }),
        Delegations { votes: 1 << 50, capital: large }
    );
    assert_eq!(
        VoteWeight::Standard.delegation(Delegations { votes: large + 1, capital: large }),
        Delegations { votes: large + 1, capital: large }
    );
    assert_eq!(VoteWeight::Quadratic.weigh_wide(99), 9);
}

#[test]
fn votes_report_their_balance_and_direction() {
    let aye = AccountVote::Standard {
        vote: Vote { aye: true, conviction: Conviction::Locked4x },
        balance: 70u64,
    };
    let split = AccountVote::Split { aye: u64::MAX, nay: u64::MAX };
    assert_eq!(aye.balance(), 70);
    assert_eq!(aye.as_standard(), Some(true));
    assert_eq!(aye.conviction(), Conviction::Locked4x);
    assert_eq!(split.balance(), 2 * (u64::MAX as u128));
    assert_eq!(split.as_standard(), None);
    assert_eq!(split.conviction(), Conviction::Unlocked);
}

#[test]
fn weighted_votes_become_contributions() {
    let unlocked_aye = Vote { aye: true, conviction: Conviction::Unlocked };
    let locked_nay = Vote { aye: false, conviction: Conviction::Locked6x };
    assert_eq!(
        Tally::from_vote(AccountVoteWeight::Standard {
            vote: unlocked_aye,
            balance: 100,
            weighted_balance: 10
        }),
        Tally { ayes: 1, nays: 0, turnout: 100 }
    );
    assert_eq!(
        Tally::from_vote(AccountVoteWeight::Standard {
            vote: locked_nay,
            balance: 100,
            weighted_balance: 10
        }),
        Tally { ayes: 0, nays: 60, turnout: 100 }
    );
    assert_eq!(
        Tally::from_vote(AccountVoteWeight::Split {
            aye: 300,
            nay: 200,
            aye_weight: 17,
            nay_weight: 14
        }),
        Tally { ayes: 1, nays: 1, turnout: 500 }
    );
    assert_eq!(
        Tally::from_delegations(true, Delegations { votes: 10, capital: 20 }),
        Tally { ayes: 10, nays: 0, turnout: 20 }
    );
    assert_eq!(
        Tally::from_delegations(false, Delegations { votes: 10, capital: 20 }),
        Tally { ayes: 0, nays: 10, turnout: 20 }
    );
    assert_eq!(Tally::zero(), Tally { ayes: 0, nays: 0, turnout: 0 });
}

#[test]
fn tally_adds_and_removes_exactly() {
    let mut tally = Tally { ayes: 5, nays: 7, turnout: 100 };
    assert_eq!(tally.add(Tally { ayes: 1, nays: 2, turnout: 30 }), Some(()));
    assert_eq!(tally, Tally { ayes: 6, nays: 9, turnout: 130 });
    assert_eq!(tally.remove(Tally { ayes: 6, nays: 0, turnout: 130 }), Some(()));
    assert_eq!(tally, Tally { ayes: 0, nays: 9, turnout: 0 });
}

#[test]
fn tally_refuses_what_does_not_fit() {
    let mut tally = Tally { ayes: 5, nays: u128::MAX, turnout: 100 };
    assert_eq!(tally.add(Tally { ayes: 1, nays: 1, turnout: 1 }), None);
    assert_eq!(tally, Tally { ayes: 5, nays: u128::MAX, turnout: 100 });
    assert_eq!(tally.remove(Tally { ayes: 5, nays: 0, turnout: 101 }), None);
    assert_eq!(tally, Tally { ayes: 5, nays: u128::MAX, turnout: 100 });
    assert_eq!(tally.remove(Tally { ayes: 5, nays: u128::MAX, turnout: 100 }), Some(()));
    assert_eq!(tally, Tally::zero());
}

#[test]
fn rationals_compare_without_overflow() {
    assert!(compare_rationals(1, 2, 2, 3));
    assert!(!compare_rationals(2, 3, 1, 2));
    assert!(!compare_rationals(1, 2, 2, 4));
    assert!(compare_rationals(3, 7, 5, 11));
    assert!(!compare_rationals(5, 11, 3, 7));
    assert!(compare_rationals(0, 5, 1, u128::MAX));
    assert!(!compare_rationals(u128::MAX, 1, u128::MAX, 2));
    assert!(compare_rationals(u128::MAX, 2, u128::MAX, 1));
    assert!(compare_rationals(u128::MAX - 1, u128::MAX, u128::MAX, u128::MAX));
    assert!(!compare_rationals(u128::MAX, u128::MAX, u128::MAX - 1, u128::MAX - 1));
    assert!(compare_rationals(u128::MAX - 2, u128::MAX - 1, u128::MAX - 1, u128::MAX));
}

#[test]
fn super_majority_approve_eases_with_turnout() {
    let rule = VoteThreshold::SuperMajorityApprove;
    assert!(rule.approved(Tally { ayes: 54, nays: 53, turnout: 2100 }, 2100));
    assert!(!rule.approved(Tally { ayes: 24, nays: 22, turnout: 1100 }, 2100));
    assert!(rule.approved(Tally { ayes: 44, nays: 22, turnout: 1500 }, 2100));
    // 22 * 45 = 990 against 30 * 33 = 990: a tie is no approval.
    assert!(!rule.approved(Tally { ayes: 30, nays: 22, turnout: 1100 }, 2100));
    assert!(rule.approved(Tally { ayes: 31, nays: 22, turnout: 1100 }, 2100));
}

#[test]
fn super_majority_against_eases_rejection() {
    let rule = VoteThreshold::SuperMajorityAgainst;
    // 22 * 33 = 726 against 24 * 45 = 1080.
    assert!(rule.approved(Tally { ayes: 24, nays: 22, turnout: 1100 }, 2100));
    // 30 * 33 = 990 against 10 * 45 = 450.
    assert!(!rule.approved(Tally { ayes: 10, nays: 30, turnout: 1100 }, 2100));
    // 30 * 33 = 990 against 22 * 45 = 990: a tie is no approval.
    assert!(!rule.approved(Tally { ayes: 22, nays: 30, turnout: 1100 }, 2100));
    assert!(rule.approved(Tally { ayes: 23, nays: 30, turnout: 1100 }, 2100));
}

#[test]
fn simple_majority_ignores_turnout() {
    let rule = VoteThreshold::SimpleMajority;
    assert!(rule.approved(Tally { ayes: 2, nays: 1, turnout: 0 }, 0));
    assert!(!rule.approved(Tally { ayes: 1, nays: 1, turnout: 1000 }, 2100));
    assert!(!rule.approved(Tally { ayes: 0, nays: 0, turnout: 0 }, 2100));
}

#[test]
fn nothing_is_approved_without_turnout() {
    let empty = Tally { ayes: 0, nays: 0, turnout: 0 };
    assert!(!VoteThreshold::SuperMajorityApprove.approved(empty, 2100));
    assert!(!VoteThreshold::SuperMajorityAgainst.approved(empty, 2100));
    let weightless = Tally { ayes: 7, nays: 0, turnout: 0 };
    assert!(!VoteThreshold::SuperMajorityApprove.approved(weightless, 2100));
    assert!(!VoteThreshold::SuperMajorityAgainst.approved(weightless, 2100));
}

#[test]
fn an_empty_electorate_is_decided_without_division() {
    let approve = VoteThreshold::SuperMajorityApprove;
    let against = VoteThreshold::SuperMajorityAgainst;
    assert!(approve.approved(Tally { ayes: 1, nays: 9, turnout: 100 }, 0));
    assert!(!approve.approved(Tally { ayes: 0, nays: 1, turnout: 100 }, 0));
    assert!(!against.approved(Tally { ayes: 9, nays: 0, turnout: 100 }, 0));
}
