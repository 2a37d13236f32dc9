//! How the sums of the model change when one account changes its commitment, and how large
//! they can get.

use vstd::prelude::*;
use crate::conviction::Conviction;
use crate::model::{accounts, Commitment, LedgerView, Part};
use crate::sums::{
    lemma_sum_add, lemma_sum_bounded, lemma_sum_congruent,
    lemma_sum_covers_term, lemma_sum_exchange, lemma_sum_single, lemma_sum_update,
    lemma_sum_zero, sum_below,
};
use crate::types::TallyView;
use crate::vote::DirectVote;

verus! {

/// The largest value that any of the sums of the model can take.
pub open spec fn sum_limit() -> int {
    accounts() * u64::MAX
}

/// The weight delegated to an account is not negative and stays below the limit.
pub proof fn lemma_delegated_bounds(s: LedgerView, to: u64)
    ensures
        0 <= s.delegated_votes(to) <= sum_limit(),
        0 <= s.delegated_capital(to) <= sum_limit(),
{
    lemma_sum_bounded(s.votes_handed_to(to), accounts(), u64::MAX as int);
    lemma_sum_bounded(s.capital_handed_to(to), accounts(), u64::MAX as int);
}

/// The weight delegated to an account covers what each single account hands to it.
pub proof fn lemma_delegated_covers(s: LedgerView, d: u64, to: u64)
    ensures
        s.delegation_from(d, to).votes <= s.delegated_votes(to),
        s.delegation_from(d, to).capital <= s.delegated_capital(to),
{
    lemma_sum_covers_term(s.votes_handed_to(to), accounts(), d as int);
    lemma_sum_covers_term(s.capital_handed_to(to), accounts(), d as int);
}

/// No contribution is negative.
pub proof fn lemma_contribution_not_negative(s: LedgerView, who: u64, r: u32, part: Part)
    ensures
        0 <= s.own_contribution(who, r).part(part),
        0 <= s.inherited_contribution(who, r).part(part),
        0 <= s.contribution(who, r).part(part),
{
    lemma_delegated_bounds(s, who);
}

/// The running totals are not negative, and they cover the contribution of each single
/// account.
pub proof fn lemma_tally_covers(s: LedgerView, who: u64, r: u32)
    ensures
        s.running_tally(r).covers(s.contribution(who, r)),
        s.running_tally(r).covers(TallyView::zero()),
{
    lemma_part_covers(s, who, r, Part::Ayes);
    lemma_part_covers(s, who, r, Part::Nays);
    lemma_part_covers(s, who, r, Part::Turnout);
}

/// One total of a referendum is not negative, and it covers what each single account adds
/// to it.
proof fn lemma_part_covers(s: LedgerView, who: u64, r: u32, part: Part)
    ensures
        s.contribution(who, r).part(part) <= sum_below(s.contributions(r, part), accounts()),
        0 <= sum_below(s.contributions(r, part), accounts()),
{
    let f = s.contributions(r, part);
    assert forall|a: int| 0 <= a < accounts() implies 0 <= #[trigger] f(a) by {
        lemma_contribution_not_negative(s, a as u64, r, part);
    }
    lemma_sum_covers_term(f, accounts(), who as int);
}

/// While an account votes directly, a change of its votes changes nothing of what any
/// account has delegated to it or to others.
pub proof fn lemma_direct_change_delegated(
    s: LedgerView,
    who: u64,
    votes: Map<u32, DirectVote>,
    to: u64,
)
    requires
        s.commitments[who] is Direct,
    ensures
        s.with_commitment(who, Commitment::Direct { votes }).delegated_votes(to)
            == s.delegated_votes(to),
        s.with_commitment(who, Commitment::Direct { votes }).delegated_capital(to)
            == s.delegated_capital(to),
{
    let s2 = s.with_commitment(who, Commitment::Direct { votes });
    lemma_sum_congruent(s.votes_handed_to(to), s2.votes_handed_to(to), accounts());
    lemma_sum_congruent(s.capital_handed_to(to), s2.capital_handed_to(to), accounts());
}

/// `lemma_direct_change_tally` for one of the three totals.
proof fn lemma_direct_change_part(
    s: LedgerView,
    who: u64,
    votes: Map<u32, DirectVote>,
    r: u32,
    part: Part,
)
    requires
        s.commitments[who] is Direct,
    ensures
        sum_below(
            s.with_commitment(who, Commitment::Direct { votes }).contributions(r, part),
            accounts(),
        ) == sum_below(s.contributions(r, part), accounts()) - s.contribution(who, r).part(part)
            + s.with_commitment(who, Commitment::Direct { votes }).contribution(who, r).part(
            part,
        ),
{
    let s2 = s.with_commitment(who, Commitment::Direct { votes });
    let f = s.contributions(r, part);
    let g = s2.contributions(r, part);
    assert forall|a: int| 0 <= a < accounts() && a != who implies #[trigger] f(a) == g(a) by {
        lemma_direct_change_delegated(s, who, votes, a as u64);
    }
    lemma_sum_update(f, g, accounts(), who as int);
}

/// While an account votes directly, a change of its votes changes the running totals of a
/// referendum by the difference of its own contributions, and by nothing else.
pub proof fn lemma_direct_change_tally(
    s: LedgerView,
    who: u64,
    votes: Map<u32, DirectVote>,
    r: u32,
)
    requires
        s.commitments[who] is Direct,
    ensures
        s.with_commitment(who, Commitment::Direct { votes }).running_tally(r)
            == s.running_tally(r).minus(s.contribution(who, r)).plus(
            s.with_commitment(who, Commitment::Direct { votes }).contribution(who, r),
        ),
{
    lemma_direct_change_part(s, who, votes, r, Part::Ayes);
    lemma_direct_change_part(s, who, votes, r, Part::Nays);
    lemma_direct_change_part(s, who, votes, r, Part::Turnout);
}

/// When an idle account delegates, the weight delegated to its target grows by its weighted
/// delegation, and the weight delegated to every other account stays as it is.
pub proof fn lemma_delegation_change_delegated(
    s: LedgerView,
    who: u64,
    target: u64,
    conviction: Conviction,
    balance: u64,
    to: u64,
)
    requires
        s.commitments[who] is Direct,
    ensures
        ({
            let s2 = s.with_commitment(who, Commitment::Delegating { balance, target, conviction });
            &&& s2.delegated_votes(to) == s.delegated_votes(to) + s2.delegation_from(who, to).votes
            &&& s2.delegated_capital(to) == s.delegated_capital(to) + s2.delegation_from(
                who,
                to,
            ).capital
        }),
{
    let s2 = s.with_commitment(who, Commitment::Delegating { balance, target, conviction });
    lemma_sum_update(s.votes_handed_to(to), s2.votes_handed_to(to), accounts(), who as int);
    lemma_sum_update(s.capital_handed_to(to), s2.capital_handed_to(to), accounts(), who as int);
}

/// `lemma_delegation_change_tally` for one of the three totals.
proof fn lemma_delegation_change_part(
    s: LedgerView,
    who: u64,
    target: u64,
    conviction: Conviction,
    balance: u64,
    r: u32,
    part: Part,
)
    requires
        s.commitments[who] == Commitment::idle(),
        who != target,
    ensures
        ({
            let s2 = s.with_commitment(who, Commitment::Delegating { balance, target, conviction });
            sum_below(s2.contributions(r, part), accounts()) == sum_below(
                s.contributions(r, part),
                accounts(),
            ) + s2.passed_contribution(who, target, r).part(part)
        }),
{
    let s2 = s.with_commitment(who, Commitment::Delegating { balance, target, conviction });
    let f = s.contributions(r, part);
    let g = s2.contributions(r, part);
    assert forall|a: int| 0 <= a < accounts() && a != target implies #[trigger] f(a) == g(a) by {
        let a = a as u64;
        lemma_delegation_change_delegated(s, who, target, conviction, balance, a);
    }
    lemma_sum_update(f, g, accounts(), target as int);
    lemma_delegation_change_delegated(s, who, target, conviction, balance, target);
}

/// When an idle account delegates, the running totals of a referendum grow by what the
/// delegation passes on through the vote of the target, and by nothing else.
pub proof fn lemma_delegation_change_tally(
    s: LedgerView,
    who: u64,
    target: u64,
    conviction: Conviction,
    balance: u64,
    r: u32,
)
    requires
        s.commitments[who] == Commitment::idle(),
        who != target,
    ensures
        ({
            let s2 = s.with_commitment(who, Commitment::Delegating { balance, target, conviction });
            s2.running_tally(r) == s.running_tally(r).plus(s2.passed_contribution(who, target, r))
        }),
{
    lemma_delegation_change_part(s, who, target, conviction, balance, r, Part::Ayes);
    lemma_delegation_change_part(s, who, target, conviction, balance, r, Part::Nays);
    lemma_delegation_change_part(s, who, target, conviction, balance, r, Part::Turnout);
}

/// The contributions of all accounts to a referendum add up to what the accounts have at
/// stake in it, each account counted once.
pub proof fn lemma_contributions_are_stakes(s: LedgerView, r: u32, part: Part)
    requires
        s.wf(),
    ensures
        sum_below(s.contributions(r, part), accounts()) == sum_below(
            s.stakes(r, part),
            accounts(),
        ),
        0 <= sum_below(s.stakes(r, part), accounts()) <= sum_limit(),
{
    let n = accounts();
    let own = |a: int| s.own_contribution(a as u64, r).part(part);
    let inherited = |a: int| s.inherited_contribution(a as u64, r).part(part);
    let row = |a: int| (|d: int| s.passed_contribution(d as u64, a as u64, r).part(part));
    let col = |d: int| (|a: int| s.passed_contribution(d as u64, a as u64, r).part(part));
    let passed_on = |d: int| sum_below(col(d), n);
    // The weight an account inherits is what its delegators pass on through it.
    assert forall|a: int| 0 <= a < n implies #[trigger] inherited(a) == sum_below(row(a), n) by {
        let through = a as u64;
        match s.backing(through, r) {
            Some(approve) => {
                let from = if part == Part::Turnout {
                    s.capital_handed_to(through)
                } else if (part == Part::Ayes) == approve {
                    s.votes_handed_to(through)
                } else {
                    |d: int| 0int
                };
                lemma_sum_congruent(row(a), from, n);
                if part != Part::Turnout && (part == Part::Ayes) != approve {
                    lemma_sum_zero(from, n);
                }
            },
            None => {
                lemma_sum_zero(row(a), n);
            },
        }
    }
    lemma_sum_exchange(row, col, inherited, passed_on, n, n);
    // What an account passes on goes through its target alone.
    let stakes = s.stakes(r, part);
    assert forall|d: int| 0 <= d < n implies #[trigger] stakes(d) == own(d) + passed_on(d) by {
        match s.commitments[d as u64] {
            Commitment::Direct { .. } => {
                lemma_sum_zero(col(d), n);
            },
            Commitment::Delegating { target, .. } => {
                lemma_sum_single(col(d), n, target as int);
            },
        }
    }
    lemma_sum_add(own, passed_on, stakes, n);
    lemma_sum_add(own, inherited, s.contributions(r, part), n);
    lemma_sum_bounded(stakes, n, u64::MAX as int);
}

/// The running totals of a referendum fit in 128 bits.
pub proof fn lemma_tally_fits(s: LedgerView, r: u32)
    requires
        s.wf(),
    ensures
        s.running_tally(r).fits(),
{
    lemma_contributions_are_stakes(s, r, Part::Ayes);
    lemma_contributions_are_stakes(s, r, Part::Nays);
    lemma_contributions_are_stakes(s, r, Part::Turnout);
}

/// What is delegated to an account depends on the commitments and on the weighting alone.
pub proof fn lemma_delegated_depends_on_commitments(s: LedgerView, t: LedgerView, to: u64)
    requires
        s.weight == t.weight,
        s.commitments == t.commitments,
    ensures
        t.delegated_votes(to) == s.delegated_votes(to),
        t.delegated_capital(to) == s.delegated_capital(to),
{
    lemma_sum_congruent(s.votes_handed_to(to), t.votes_handed_to(to), accounts());
    lemma_sum_congruent(s.capital_handed_to(to), t.capital_handed_to(to), accounts());
}

/// `lemma_tally_depends_on_commitments` for one of the three totals.
proof fn lemma_part_depends_on_commitments(s: LedgerView, t: LedgerView, r: u32, part: Part)
    requires
        s.weight == t.weight,
        s.commitments == t.commitments,
        s.referendums[r as int].weight() == t.referendums[r as int].weight(),
    ensures
        sum_below(t.contributions(r, part), accounts()) == sum_below(
            s.contributions(r, part),
            accounts(),
        ),
{
    assert forall|a: int| 0 <= a < accounts() implies #[trigger] s.contributions(r, part)(a)
        == t.contributions(r, part)(a) by {
        lemma_delegated_depends_on_commitments(s, t, a as u64);
    }
    lemma_sum_congruent(s.contributions(r, part), t.contributions(r, part), accounts());
}

/// The running totals of a referendum depend on the commitments, on the weighting of
/// delegations and on the weighting of that referendum alone.
pub proof fn lemma_tally_depends_on_commitments(s: LedgerView, t: LedgerView, r: u32)
    requires
        s.weight == t.weight,
        s.commitments == t.commitments,
        s.referendums[r as int].weight() == t.referendums[r as int].weight(),
    ensures
        t.running_tally(r) == s.running_tally(r),
{
    lemma_part_depends_on_commitments(s, t, r, Part::Ayes);
    lemma_part_depends_on_commitments(s, t, r, Part::Nays);
    lemma_part_depends_on_commitments(s, t, r, Part::Turnout);
}

/// A referendum on which nobody has voted has empty running totals.
pub proof fn lemma_unvoted_tally_is_zero(s: LedgerView, r: u32)
    requires
        forall|who: u64| !(#[trigger] s.commitments[who]).votes().contains_key(r),
    ensures
        s.running_tally(r) == TallyView::zero(),
{
    lemma_sum_zero(s.contributions(r, Part::Ayes), accounts());
    lemma_sum_zero(s.contributions(r, Part::Nays), accounts());
    lemma_sum_zero(s.contributions(r, Part::Turnout), accounts());
}

/// The sums of the model depend on the commitments, the weighting and the referendums
/// alone.
pub proof fn lemma_same_sums(s: LedgerView, t: LedgerView)
    requires
        s.weight == t.weight,
        s.commitments == t.commitments,
        s.referendums == t.referendums,
    ensures
        s.wf() == t.wf(),
        forall|to: u64| #[trigger] t.delegated_votes(to) == s.delegated_votes(to),
        forall|to: u64| #[trigger] t.delegated_capital(to) == s.delegated_capital(to),
        forall|r: u32| #[trigger] t.running_tally(r) == s.running_tally(r),
{
    assert forall|to: u64| #[trigger] t.delegated_votes(to) == s.delegated_votes(to) by {
        lemma_delegated_depends_on_commitments(s, t, to);
    }
    assert forall|to: u64| #[trigger] t.delegated_capital(to) == s.delegated_capital(to) by {
        lemma_delegated_depends_on_commitments(s, t, to);
    }
    assert forall|r: u32| #[trigger] t.running_tally(r) == s.running_tally(r) by {
        lemma_tally_depends_on_commitments(s, t, r);
    }
}

} // verus!
