//! Laws of the ledger: what holds of its states whatever actions led to them.

use vstd::prelude::*;
use crate::accounting::{
    lemma_contributions_are_stakes, lemma_delegated_depends_on_commitments,
    lemma_delegation_change_delegated, lemma_delegation_change_tally,
    lemma_direct_change_delegated, lemma_direct_change_tally, lemma_same_sums,
    lemma_tally_depends_on_commitments, lemma_tally_fits, lemma_unvoted_tally_is_zero,
};
use crate::conviction::Conviction;
use crate::error::Error;
use crate::math::{isqrt, lemma_isqrt_bounds};
use crate::model::{accounts, Commitment, LedgerView, Part};
use crate::sums::{lemma_sum_zero, sum_below};
use crate::types::TallyView;
use crate::vote::AccountVote;
use crate::vote_threshold::VoteThreshold;
use crate::vote_weight::{Calculate, VoteWeight};

verus! {

/// What one account may ask for on one referendum.
pub enum Action {
    /// Cast a vote, with the free balance that the account has at that moment.
    Vote { vote: AccountVote<u64>, free_balance: u64 },
    /// Remove the vote.
    Remove,
}

/// The state after `who` has asked for `action` on referendum `r`: a refused action changes
/// nothing.
pub open spec fn attempt(s: LedgerView, who: u64, r: u32, action: Action) -> LedgerView {
    match action {
        Action::Vote { vote, free_balance } => if s.vote_error(who, r, vote, free_balance) is None {
            s.after_vote(who, r, vote)
        } else {
            s
        },
        Action::Remove => if s.remove_vote_error(who, r) is None {
            s.after_remove_vote(who, r)
        } else {
            s
        },
    }
}

/// The state after `who` has asked for each of `actions` on referendum `r`, in order.
pub open spec fn attempt_all(s: LedgerView, who: u64, r: u32, actions: Seq<Action>) -> LedgerView
    decreases actions.len(),
{
    if actions.len() == 0 {
        s
    } else {
        attempt(attempt_all(s, who, r, actions.drop_last()), who, r, actions.last())
    }
}

/// States that differ at most in the vote of `who` on `r` and in their locks.
spec fn differ_in_vote(s: LedgerView, t: LedgerView, who: u64, r: u32) -> bool {
    &&& t.weight == s.weight
    &&& t.vote_locking_period == s.vote_locking_period
    &&& t.referendums == s.referendums
    &&& t.commitments[who] is Direct <==> s.commitments[who] is Direct
    &&& t.commitments.remove(who) == s.commitments.remove(who)
    &&& t.commitments.dom() == s.commitments.dom()
    &&& t.commitments[who].votes().remove(r) == s.commitments[who].votes().remove(r)
    &&& t.commitments[who] is Delegating ==> t.commitments[who] == s.commitments[who]
}

/// Whatever one account asks for on one referendum, the state changes at most in the vote
/// of that account on that referendum and in the locks.
proof fn lemma_attempts_differ_in_vote(s: LedgerView, who: u64, r: u32, actions: Seq<Action>)
    requires
        s.commitments.contains_key(who),
    ensures
        differ_in_vote(s, attempt_all(s, who, r, actions), who, r),
    decreases actions.len(),
{
    if actions.len() > 0 {
        let before = attempt_all(s, who, r, actions.drop_last());
        lemma_attempts_differ_in_vote(s, who, r, actions.drop_last());
        let after = attempt(before, who, r, actions.last());
        assert(after.commitments.remove(who) =~= before.commitments.remove(who));
        assert(after.commitments[who].votes().remove(r) =~= before.commitments[who].votes().remove(
            r,
        ));
    }
}

/// A vote replaces, it does not accumulate: after any sequence of votes and removals by one
/// account on one referendum that ends in an accepted vote, the commitments of all accounts,
/// and with them the totals of the referendum, are those that the last vote alone would have
/// given.
pub proof fn lemma_last_vote_counts(
    s: LedgerView,
    who: u64,
    r: u32,
    actions: Seq<Action>,
    vote: AccountVote<u64>,
    free_balance: u64,
)
    requires
        s.wf(),
        actions.len() > 0,
        actions.last() == (Action::Vote { vote, free_balance }),
        s.vote_error(who, r, vote, free_balance) is None,
    ensures
        attempt_all(s, who, r, actions).commitments == s.after_vote(who, r, vote).commitments,
        attempt_all(s, who, r, actions).tally_of(r) == s.after_vote(who, r, vote).tally_of(r),
{
    let before = attempt_all(s, who, r, actions.drop_last());
    lemma_attempts_differ_in_vote(s, who, r, actions.drop_last());
    let after = attempt_all(s, who, r, actions);
    let alone = s.after_vote(who, r, vote);
    assert(after.commitments[who].votes() =~= alone.commitments[who].votes()) by {
        let entry = after.commitments[who].votes()[r];
        assert(after.commitments[who].votes() =~= after.commitments[who].votes().remove(r).insert(
            r,
            entry,
        ));
        assert(after.commitments[who].votes().remove(r) =~= before.commitments[who].votes().remove(
            r,
        ));
    }
    assert(after.commitments =~= alone.commitments) by {
        assert forall|a: u64| a != who implies after.commitments[a] == alone.commitments[a] by {
            assert(after.commitments[a] == before.commitments.remove(who)[a]);
        }
    }
    lemma_same_sums(alone, after);
}

/// No weight exceeds the balance it was taken of: a weighted balance fits wherever the
/// balance fits.
pub proof fn lemma_weight_never_exceeds_balance(weight: VoteWeight, balance: nat)
    ensures
        weight.spec_weigh(balance) <= balance,
{
    lemma_isqrt_bounds(balance);
}

/// The weighted votes that a delegation of `balance` at `conviction` hands over under the
/// weighting of `s`: the weight of the conviction-scaled balance. Under quadratic weighting
/// this is the integer square root of the scaled balance.
pub open spec fn delegated_weight(s: LedgerView, conviction: Conviction, balance: u64) -> int {
    s.weight.spec_weigh(conviction.spec_votes(balance as nat)) as int
}

/// A delegation counts at once, and once: it adds the weight of the conviction-scaled
/// balance to what is delegated to the target, and to the totals of every open referendum on
/// which the target has a standard vote, on the side of that vote; the turnout grows by the
/// balance. Whatever the account had committed before is withdrawn first.
pub proof fn lemma_delegation_counts(
    s: LedgerView,
    who: u64,
    target: u64,
    conviction: Conviction,
    balance: u64,
    now: u64,
    r: u32,
)
    requires
        s.wf(),
        who != target,
    ensures
        ({
            let base = s.retracted(who, now);
            let t = s.after_delegate(who, target, conviction, balance, now);
            let votes = delegated_weight(s, conviction, balance);
            &&& s.weight == VoteWeight::Quadratic ==> votes == isqrt(
                conviction.spec_votes(balance as nat),
            )
            &&& t.delegated_votes(target) == base.delegated_votes(target) + votes
            &&& t.delegated_capital(target) == base.delegated_capital(target) + balance
            &&& t.running_tally(r) == base.running_tally(r).plus(
                match base.backing(target, r) {
                    Some(approve) => TallyView::of_delegations(approve, votes, balance as int),
                    None => TallyView::zero(),
                },
            )
        }),
{
    let base = s.retracted(who, now);
    lemma_isqrt_bounds(conviction.spec_votes(balance as nat));
    lemma_delegation_change_delegated(base, who, target, conviction, balance, target);
    lemma_delegation_change_tally(base, who, target, conviction, balance, r);
}

/// A vote carries what is delegated to the voter: when an account casts a standard vote, its
/// contribution to the referendum is its own weighted vote together with all the voting
/// power that is delegated to it at that moment.
pub proof fn lemma_vote_carries_delegations(
    s: LedgerView,
    who: u64,
    r: u32,
    vote: AccountVote<u64>,
    free_balance: u64,
)
    requires
        s.wf(),
        s.vote_error(who, r, vote, free_balance) is None,
    ensures
        ({
            let t = s.after_vote(who, r, vote);
            t.contribution(who, r) == TallyView::of_vote(
                s.referendums[r as int].weight().spec_calculate(vote),
            ).plus(
                match vote.spec_as_standard() {
                    Some(approve) => TallyView::of_delegations(
                        approve,
                        s.delegated_votes(who),
                        s.delegated_capital(who),
                    ),
                    None => TallyView::zero(),
                },
            )
        }),
{
    let t = s.after_vote(who, r, vote);
    let mid = s.with_commitment(who, t.commitments[who]);
    lemma_same_sums(mid, t);
    lemma_direct_change_delegated(s, who, t.commitments[who].votes(), who);
}

/// Taking a delegation back removes exactly what the delegation had added: the commitments
/// of all accounts, the delegated voting power and the totals of every referendum are those
/// of the state in which the account had withdrawn everything and not delegated at all.
pub proof fn lemma_undelegate_restores(
    s: LedgerView,
    who: u64,
    target: u64,
    conviction: Conviction,
    balance: u64,
    now: u64,
    later: u64,
    to: u64,
    r: u32,
)
    requires
        s.wf(),
        who != target,
    ensures
        ({
            let base = s.retracted(who, now);
            let back = s.after_delegate(who, target, conviction, balance, now).retracted(
                who,
                later,
            );
            &&& back.commitments == base.commitments
            &&& back.delegated_votes(to) == base.delegated_votes(to)
            &&& back.delegated_capital(to) == base.delegated_capital(to)
            &&& back.running_tally(r) == base.running_tally(r)
        }),
{
    let base = s.retracted(who, now);
    let back = s.after_delegate(who, target, conviction, balance, now).retracted(who, later);
    assert(back.commitments =~= base.commitments);
    lemma_same_sums(base, back);
}

/// An account that delegates to itself is refused as nonsense, whatever else holds: whether
/// it has the funds, whether it votes or delegates already. `Ledger::delegate` leaves the
/// state of a refused action as it was.
pub proof fn lemma_self_delegation_is_nonsense(
    s: LedgerView,
    who: u64,
    balance: u64,
    free_balance: u64,
)
    ensures
        s.delegate_error(who, who, balance, free_balance) == Some(Error::Nonsense),
{
}

/// Delegation never asks whether the target delegates itself: a delegation to any other
/// account leads from a well-formed state to a well-formed state. Chains and cycles of
/// delegations are therefore states like any other.
pub proof fn lemma_delegate_keeps_well_formed(
    s: LedgerView,
    who: u64,
    target: u64,
    conviction: Conviction,
    balance: u64,
    now: u64,
)
    requires
        s.wf(),
        who != target,
    ensures
        s.after_delegate(who, target, conviction, balance, now).wf(),
        s.after_delegate(who, target, conviction, balance, now).commitments[who]
            == (Commitment::Delegating { balance, target, conviction }),
        forall|other: u64|
            other != who ==> s.after_delegate(
                who,
                target,
                conviction,
                balance,
                now,
            ).commitments[other] == #[trigger] s.commitments[other],
{
}

/// A cycle of three delegations is a well-formed state: when `a` delegates to `b`, `b` to
/// `c` and `c` to `a`, each of the three is a delegating account afterwards.
pub proof fn lemma_cycle_is_well_formed(
    s: LedgerView,
    a: u64,
    b: u64,
    c: u64,
    conviction: Conviction,
    balance: u64,
    now: u64,
)
    requires
        s.wf(),
        a != b,
        b != c,
        c != a,
    ensures
        ({
            let t = s.after_delegate(a, b, conviction, balance, now).after_delegate(
                b,
                c,
                conviction,
                balance,
                now,
            ).after_delegate(c, a, conviction, balance, now);
            &&& t.wf()
            &&& t.commitments[a] == (Commitment::Delegating { balance, target: b, conviction })
            &&& t.commitments[b] == (Commitment::Delegating { balance, target: c, conviction })
            &&& t.commitments[c] == (Commitment::Delegating { balance, target: a, conviction })
        }),
{
}

/// Every account counts once, whatever the delegations look like, cycles included: each
/// total of an open referendum is the sum, over all accounts, of what the account itself has
/// at stake in it: its own vote if it votes directly, or what its delegation passes on
/// through the standard vote of its target. Nothing is passed on further than one step.
pub proof fn lemma_every_account_counts_once(s: LedgerView, r: u32, part: Part)
    requires
        s.wf(),
    ensures
        s.running_tally(r).part(part) == sum_below(s.stakes(r, part), accounts()),
        0 <= s.running_tally(r).part(part) <= u128::MAX,
{
    lemma_contributions_are_stakes(s, r, part);
}

/// A new ledger holds nothing: nothing is delegated to any account.
pub proof fn lemma_empty_ledger_delegates_nothing(s: LedgerView, to: u64)
    requires
        s == LedgerView::empty(s.weight, s.vote_locking_period),
    ensures
        s.wf(),
        s.delegated_votes(to) == 0,
        s.delegated_capital(to) == 0,
{
    lemma_sum_zero(s.votes_handed_to(to), accounts());
    lemma_sum_zero(s.capital_handed_to(to), accounts());
}

/// A new referendum starts with empty totals, and it leaves the totals of the referendums
/// that exist, and all delegated voting power, as they are.
pub proof fn lemma_new_referendum_is_empty(
    s: LedgerView,
    end: u64,
    threshold: VoteThreshold,
    weight: VoteWeight,
    other: u32,
    to: u64,
)
    requires
        s.wf(),
        s.referendums.len() < u32::MAX,
    ensures
        ({
            let t = s.after_inject(end, threshold, weight);
            &&& t.wf()
            &&& t.is_ongoing(s.referendums.len() as u32)
            &&& t.running_tally(s.referendums.len() as u32) == TallyView::zero()
            &&& other < s.referendums.len() ==> t.tally_of(other) == s.tally_of(other)
            &&& t.delegated_votes(to) == s.delegated_votes(to)
            &&& t.delegated_capital(to) == s.delegated_capital(to)
        }),
{
    let t = s.after_inject(end, threshold, weight);
    let r = s.referendums.len() as u32;
    lemma_unvoted_tally_is_zero(t, r);
    lemma_delegated_depends_on_commitments(s, t, to);
    if other < s.referendums.len() {
        lemma_tally_depends_on_commitments(s, t, other);
    }
}

/// A vote changes the totals of its referendum by the difference between what the account
/// contributed before and what it contributes now; the totals of every other referendum,
/// and all delegated voting power, stay as they are.
pub proof fn lemma_vote_changes_tally(
    s: LedgerView,
    who: u64,
    r: u32,
    vote: AccountVote<u64>,
    free_balance: u64,
    other: u32,
    to: u64,
)
    requires
        s.wf(),
        s.vote_error(who, r, vote, free_balance) is None,
    ensures
        ({
            let t = s.after_vote(who, r, vote);
            &&& t.wf()
            &&& t.running_tally(r) == s.running_tally(r).minus(s.contribution(who, r)).plus(
                t.contribution(who, r),
            )
            &&& other != r ==> t.running_tally(other) == s.running_tally(other)
            &&& t.delegated_votes(to) == s.delegated_votes(to)
            &&& t.delegated_capital(to) == s.delegated_capital(to)
        }),
{
    let t = s.after_vote(who, r, vote);
    let votes = t.commitments[who].votes();
    let mid = s.with_commitment(who, Commitment::Direct { votes });
    lemma_same_sums(mid, t);
    lemma_direct_change_tally(s, who, votes, r);
    lemma_direct_change_tally(s, who, votes, other);
    lemma_direct_change_delegated(s, who, votes, who);
    lemma_direct_change_delegated(s, who, votes, to);
}

/// The removal of a vote takes from the totals of its referendum what the account
/// contributed; the totals of every other referendum, all delegated voting power and all
/// locks stay as they are.
pub proof fn lemma_remove_vote_changes_tally(
    s: LedgerView,
    who: u64,
    r: u32,
    other: u32,
    to: u64,
)
    requires
        s.wf(),
        s.remove_vote_error(who, r) is None,
    ensures
        ({
            let t = s.after_remove_vote(who, r);
            &&& t.wf()
            &&& t.running_tally(r) == s.running_tally(r).minus(s.contribution(who, r))
            &&& other != r ==> t.running_tally(other) == s.running_tally(other)
            &&& t.delegated_votes(to) == s.delegated_votes(to)
            &&& t.delegated_capital(to) == s.delegated_capital(to)
            &&& t.locks == s.locks
        }),
{
    let t = s.after_remove_vote(who, r);
    let votes = t.commitments[who].votes();
    lemma_direct_change_tally(s, who, votes, r);
    lemma_direct_change_tally(s, who, votes, other);
    lemma_direct_change_delegated(s, who, votes, who);
    lemma_direct_change_delegated(s, who, votes, to);
}

/// Closing a referendum makes its running totals final, and leaves the totals of every
/// other referendum as they are.
pub proof fn lemma_close_keeps_tallies(s: LedgerView, r: u32, electorate: u128, other: u32)
    requires
        s.wf(),
        s.close_error(r) is None,
        other < s.referendums.len(),
    ensures
        ({
            let t = s.after_close(r, electorate);
            &&& t.wf()
            &&& !t.is_ongoing(r)
            &&& t.tally_of(other) == s.tally_of(other)
        }),
{
    let t = s.after_close(r, electorate);
    lemma_tally_fits(s, r);
    if other != r {
        lemma_tally_depends_on_commitments(s, t, other);
    }
}

} // verus!
