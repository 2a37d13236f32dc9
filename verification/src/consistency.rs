//! What ties the stored records and tallies of a ledger to its abstract state, and why
//! each kind of change keeps them tied.

use vstd::prelude::*;
use crate::accounting::{
    lemma_delegated_bounds, lemma_delegated_covers, lemma_delegated_depends_on_commitments,
    lemma_delegation_change_delegated, lemma_delegation_change_tally,
    lemma_direct_change_delegated, lemma_direct_change_tally, lemma_same_sums,
    lemma_tally_covers, lemma_tally_depends_on_commitments, lemma_tally_fits,
    lemma_unvoted_tally_is_zero,
};
use crate::conviction::Conviction;
use crate::model::{accounts, Commitment, LedgerView, Referendum};
use crate::sums::lemma_sum_zero;
use crate::types::{Delegations, ReferendumInfo, TallyView};
use crate::vote::{AccountVote, DirectVote};
use crate::vote_weight::{Calculate, VoteWeight};
use crate::voting::Voting;

verus! {

/// The commitments that the stored records stand for; an account without a record is idle.
pub open spec fn commitments_of(voting: Map<u64, Voting>) -> Map<u64, Commitment> {
    Map::new(
        |who: u64| true,
        |who: u64|
            if voting.contains_key(who) {
                voting[who]@
            } else {
                Commitment::idle()
            },
    )
}

/// The delegated voting power that the stored records carry; none without a record.
pub open spec fn delegations_of(voting: Map<u64, Voting>, who: u64) -> Delegations<u128> {
    if voting.contains_key(who) {
        voting[who].delegations()
    } else {
        Delegations { votes: 0, capital: 0 }
    }
}

/// The referendums without their running totals.
pub open spec fn referendum_views(referendums: Seq<ReferendumInfo>) -> Seq<Referendum> {
    Seq::new(referendums.len(), |r: int| referendums[r]@)
}

/// What a vote adds to a tally: its own weight if `own` is set, and the weight `delegations`
/// behind it if it is a standard vote.
pub open spec fn vote_delta(
    weight: VoteWeight,
    vote: AccountVote<u64>,
    own: bool,
    delegations: Delegations<u128>,
) -> TallyView {
    let own_part = if own {
        TallyView::of_vote(weight.spec_calculate(vote))
    } else {
        TallyView::zero()
    };
    let inherited_part = match vote.spec_as_standard() {
        Some(approve) => TallyView::of_delegations(
            approve,
            delegations.votes as int,
            delegations.capital as int,
        ),
        None => TallyView::zero(),
    };
    own_part.plus(inherited_part)
}

/// The same voting power in 128 bits.
pub open spec fn widened(delegations: Delegations<u64>) -> Delegations<u128> {
    Delegations { votes: delegations.votes as u128, capital: delegations.capital as u128 }
}

/// The stored record of `who` is sound, and it carries the voting power delegated to `who`.
pub open spec fn record_ok(s: LedgerView, voting: Map<u64, Voting>, who: u64) -> bool {
    &&& voting.contains_key(who) ==> voting[who].wf()
    &&& delegations_of(voting, who).votes == s.delegated_votes(who)
    &&& delegations_of(voting, who).capital == s.delegated_capital(who)
}

/// The tally stored for referendum `r`, if it is open, is the sum of all contributions.
pub open spec fn referendum_ok(s: LedgerView, referendums: Seq<ReferendumInfo>, r: int) -> bool {
    referendums[r] matches ReferendumInfo::Ongoing(status) ==> status.tally@ == s.running_tally(
        r as u32,
    )
}

/// The records `voting` and the referendums `referendums` store the state `s`.
pub open spec fn consistent(
    s: LedgerView,
    voting: Map<u64, Voting>,
    referendums: Seq<ReferendumInfo>,
) -> bool {
    &&& s.wf()
    &&& s.commitments == commitments_of(voting)
    &&& s.referendums == referendum_views(referendums)
    &&& forall|who: u64| #[trigger] record_ok(s, voting, who)
    &&& forall|r: int| 0 <= r < referendums.len() ==> #[trigger] referendum_ok(s, referendums, r)
}

/// Referendums that differ in their stored tallies at most.
pub open spec fn same_referendums(before: Seq<ReferendumInfo>, after: Seq<ReferendumInfo>) -> bool {
    &&& after.len() == before.len()
    &&& forall|r: int| 0 <= r < before.len() ==> (#[trigger] after[r])@ == before[r]@
}

/// The stored tally of every open referendum is what `goal` says.
pub open spec fn tallies_are(referendums: Seq<ReferendumInfo>, goal: spec_fn(u32) -> TallyView)
    -> bool {
    forall|r: int|
        0 <= r < referendums.len() ==> (#[trigger] referendums[r] matches ReferendumInfo::Ongoing(
            status,
        ) ==> status.tally@ == goal(r as u32))
}

/// The running totals of a state, as a function of the referendum.
pub open spec fn running(s: LedgerView) -> spec_fn(u32) -> TallyView {
    |r: u32| s.running_tally(r)
}

/// Records and referendums that store a state store every state that differs from it in
/// its locks alone.
pub proof fn lemma_consistent_with_locks(
    s: LedgerView,
    t: LedgerView,
    voting: Map<u64, Voting>,
    referendums: Seq<ReferendumInfo>,
)
    requires
        consistent(s, voting, referendums),
        s.weight == t.weight,
        s.commitments == t.commitments,
        s.referendums == t.referendums,
    ensures
        consistent(t, voting, referendums),
{
    lemma_same_sums(s, t);
    assert forall|who: u64| #[trigger] record_ok(t, voting, who) by {
        assert(record_ok(s, voting, who));
    }
    assert forall|r: int| 0 <= r < referendums.len() implies #[trigger] referendum_ok(
        t,
        referendums,
        r,
    ) by {
        assert(referendum_ok(s, referendums, r));
    }
}

/// A new ledger stores the empty state.
pub proof fn lemma_empty_consistent(s: LedgerView)
    requires
        s == LedgerView::empty(s.weight, s.vote_locking_period),
    ensures
        consistent(s, Map::<u64, Voting>::empty(), Seq::<ReferendumInfo>::empty()),
{
    assert(s.commitments =~= commitments_of(Map::<u64, Voting>::empty()));
    assert(s.referendums =~= referendum_views(Seq::<ReferendumInfo>::empty()));
    assert forall|who: u64| #[trigger] record_ok(s, Map::<u64, Voting>::empty(), who) by {
        lemma_sum_zero(s.votes_handed_to(who), accounts());
        lemma_sum_zero(s.capital_handed_to(who), accounts());
    }
}

/// Opening a referendum keeps records and referendums consistent: nobody has voted on it.
pub proof fn lemma_inject_consistent(
    s: LedgerView,
    voting: Map<u64, Voting>,
    referendums: Seq<ReferendumInfo>,
    info: ReferendumInfo,
)
    requires
        consistent(s, voting, referendums),
        referendums.len() < u32::MAX,
        info matches ReferendumInfo::Ongoing(status) && status.tally@ == TallyView::zero(),
    ensures
        consistent(
            LedgerView { referendums: s.referendums.push(info@), ..s },
            voting,
            referendums.push(info),
        ),
{
    let t = LedgerView { referendums: s.referendums.push(info@), ..s };
    assert(t.referendums =~= referendum_views(referendums.push(info)));
    assert forall|who: u64| #[trigger] record_ok(t, voting, who) by {
        assert(record_ok(s, voting, who));
        lemma_delegated_depends_on_commitments(s, t, who);
    }
    assert forall|r: int| 0 <= r < referendums.len() + 1 implies #[trigger] referendum_ok(
        t,
        referendums.push(info),
        r,
    ) by {
        if r < referendums.len() {
            assert(referendum_ok(s, referendums, r));
            lemma_tally_depends_on_commitments(s, t, r as u32);
        } else {
            lemma_unvoted_tally_is_zero(t, r as u32);
        }
    }
}

/// Closing a referendum keeps records and referendums consistent: the other referendums
/// keep their contributions.
pub proof fn lemma_close_consistent(
    s: LedgerView,
    voting: Map<u64, Voting>,
    referendums: Seq<ReferendumInfo>,
    r: u32,
    info: ReferendumInfo,
)
    requires
        consistent(s, voting, referendums),
        r < referendums.len(),
        info is Finished,
    ensures
        consistent(
            LedgerView { referendums: s.referendums.update(r as int, info@), ..s },
            voting,
            referendums.update(r as int, info),
        ),
{
    let t = LedgerView { referendums: s.referendums.update(r as int, info@), ..s };
    assert(t.referendums =~= referendum_views(referendums.update(r as int, info)));
    assert forall|who: u64| #[trigger] record_ok(t, voting, who) by {
        assert(record_ok(s, voting, who));
        lemma_delegated_depends_on_commitments(s, t, who);
    }
    assert forall|q: int| 0 <= q < referendums.len() implies #[trigger] referendum_ok(
        t,
        referendums.update(r as int, info),
        q,
    ) by {
        if q != r {
            assert(referendum_ok(s, referendums, q));
            lemma_tally_depends_on_commitments(s, t, q as u32);
        }
    }
}

/// While an account votes directly, a new record with other votes keeps the ledger
/// consistent, provided the stored tallies are the running totals of the new state.
pub proof fn lemma_direct_change_consistent(
    s: LedgerView,
    voting: Map<u64, Voting>,
    referendums: Seq<ReferendumInfo>,
    who: u64,
    record: Voting,
    settled: Seq<ReferendumInfo>,
)
    requires
        consistent(s, voting, referendums),
        s.commitments[who] is Direct,
        record is Direct,
        record.wf(),
        record.delegations() == delegations_of(voting, who),
        s.with_commitment(who, record@).wf(),
        same_referendums(referendums, settled),
        tallies_are(settled, running(s.with_commitment(who, record@))),
    ensures
        consistent(s.with_commitment(who, record@), voting.insert(who, record), settled),
{
    let t = s.with_commitment(who, record@);
    let stored = voting.insert(who, record);
    assert(t.commitments =~= commitments_of(stored));
    assert(t.referendums =~= referendum_views(settled));
    assert forall|to: u64| #[trigger] record_ok(t, stored, to) by {
        assert(record_ok(s, voting, to));
        lemma_direct_change_delegated(s, who, record@.votes(), to);
    }
}

/// While an account votes directly, a change of its vote on one referendum changes the
/// running totals of that referendum alone.
pub proof fn lemma_direct_change_one(
    s: LedgerView,
    voting: Map<u64, Voting>,
    referendums: Seq<ReferendumInfo>,
    who: u64,
    votes: Map<u32, DirectVote>,
    r: u32,
    settled: Seq<ReferendumInfo>,
)
    requires
        consistent(s, voting, referendums),
        s.commitments[who] is Direct,
        r < referendums.len(),
        votes.remove(r) == s.commitments[who].votes().remove(r),
        settled.len() == referendums.len(),
        forall|q: int|
            0 <= q < referendums.len() && q != r ==> #[trigger] settled[q] == referendums[q],
        settled[r as int]@ == referendums[r as int]@,
        settled[r as int] matches ReferendumInfo::Ongoing(status) ==> status.tally@
            == s.running_tally(r).minus(s.contribution(who, r)).plus(
            s.with_commitment(who, Commitment::Direct { votes }).contribution(who, r),
        ),
    ensures
        same_referendums(referendums, settled),
        tallies_are(settled, running(s.with_commitment(who, Commitment::Direct { votes }))),
{
    let t = s.with_commitment(who, Commitment::Direct { votes });
    assert forall|q: int| 0 <= q < settled.len() implies (
    #[trigger] settled[q] matches ReferendumInfo::Ongoing(status) ==> status.tally@ == running(t)(
        q as u32,
    )) by {
        let p = q as u32;
        lemma_direct_change_tally(s, who, votes, p);
        if p != r {
            assert(referendum_ok(s, referendums, q));
            lemma_direct_change_delegated(s, who, votes, who);
            assert(votes.contains_key(p) == votes.remove(r).contains_key(p));
            if votes.contains_key(p) {
                assert(votes[p] == votes.remove(r)[p]);
            }
        }
    }
}

/// What has to hold of `goal` for the stored tallies to reach it from `start` when each vote
/// in `votes` is settled: on each open referendum with a vote, the goal is the start plus
/// (or minus) what the vote contributes, and that sum fits (or the start covers it); every
/// other referendum keeps its totals.
pub open spec fn settles(
    referendums: Seq<ReferendumInfo>,
    votes: Map<u32, DirectVote>,
    own: bool,
    delegations: Delegations<u128>,
    add: bool,
    start: spec_fn(u32) -> TallyView,
    goal: spec_fn(u32) -> TallyView,
) -> bool {
    forall|r: int|
        0 <= r < referendums.len() ==> (#[trigger] referendums[r] matches ReferendumInfo::Ongoing(
            status,
        ) ==> if votes.contains_key(r as u32) {
            let delta = vote_delta(status.weight, votes[r as u32].vote, own, delegations);
            if add {
                goal(r as u32) == start(r as u32).plus(delta) && goal(r as u32).fits()
            } else {
                goal(r as u32) == start(r as u32).minus(delta) && start(r as u32).covers(delta)
            }
        } else {
            goal(r as u32) == start(r as u32)
        })
}

/// The stored tallies of a consistent ledger are the running totals of its state.
pub proof fn lemma_tallies_are_running(
    s: LedgerView,
    voting: Map<u64, Voting>,
    referendums: Seq<ReferendumInfo>,
)
    requires
        consistent(s, voting, referendums),
    ensures
        tallies_are(referendums, running(s)),
{
    assert forall|r: int| 0 <= r < referendums.len() implies (
    #[trigger] referendums[r] matches ReferendumInfo::Ongoing(status) ==> status.tally@
        == running(s)(r as u32)) by {
        assert(referendum_ok(s, referendums, r));
    }
}

/// When a direct voter withdraws all its votes, each open referendum on which it has voted
/// loses its contribution, and the others keep their totals.
pub proof fn lemma_retract_settles(
    s: LedgerView,
    voting: Map<u64, Voting>,
    referendums: Seq<ReferendumInfo>,
    who: u64,
)
    requires
        consistent(s, voting, referendums),
        s.commitments[who] is Direct,
    ensures
        s.with_commitment(who, Commitment::idle()).wf(),
        settles(
            referendums,
            s.commitments[who].votes(),
            true,
            delegations_of(voting, who),
            false,
            running(s),
            running(s.with_commitment(who, Commitment::idle())),
        ),
{
    let t = s.with_commitment(who, Commitment::idle());
    let votes = s.commitments[who].votes();
    assert(record_ok(s, voting, who));
    assert forall|r: int| 0 <= r < referendums.len() implies (
    #[trigger] referendums[r] matches ReferendumInfo::Ongoing(status) ==> if votes.contains_key(
        r as u32,
    ) {
        let delta = vote_delta(
            status.weight,
            votes[r as u32].vote,
            true,
            delegations_of(voting, who),
        );
        running(t)(r as u32) == running(s)(r as u32).minus(delta) && running(s)(r as u32).covers(
            delta,
        )
    } else {
        running(t)(r as u32) == running(s)(r as u32)
    }) by {
        let q = r as u32;
        lemma_direct_change_tally(s, who, Map::empty(), q);
        lemma_tally_covers(s, who, q);
    }
}

/// When an idle account delegates, each open referendum on which its target has a standard
/// vote gains the delegated weight, and the others keep their totals.
pub proof fn lemma_delegate_settles(
    s: LedgerView,
    voting: Map<u64, Voting>,
    referendums: Seq<ReferendumInfo>,
    who: u64,
    target: u64,
    conviction: Conviction,
    balance: u64,
)
    requires
        consistent(s, voting, referendums),
        s.commitments[who] == Commitment::idle(),
        who != target,
    ensures
        s.with_commitment(who, Commitment::Delegating { balance, target, conviction }).wf(),
        delegations_of(voting, target).votes + s.weighted(conviction, balance).votes <= u128::MAX,
        delegations_of(voting, target).capital + s.weighted(conviction, balance).capital
            <= u128::MAX,
        settles(
            referendums,
            s.commitments[target].votes(),
            false,
            widened(s.weighted(conviction, balance)),
            true,
            running(s),
            running(s.with_commitment(who, Commitment::Delegating { balance, target, conviction })),
        ),
{
    let t = s.with_commitment(who, Commitment::Delegating { balance, target, conviction });
    let votes = s.commitments[target].votes();
    let handed = widened(s.weighted(conviction, balance));
    assert(record_ok(s, voting, target));
    lemma_delegation_change_delegated(s, who, target, conviction, balance, target);
    lemma_delegated_bounds(t, target);
    assert forall|r: int| 0 <= r < referendums.len() implies (
    #[trigger] referendums[r] matches ReferendumInfo::Ongoing(status) ==> if votes.contains_key(
        r as u32,
    ) {
        let delta = vote_delta(status.weight, votes[r as u32].vote, false, handed);
        running(t)(r as u32) == running(s)(r as u32).plus(delta) && running(t)(r as u32).fits()
    } else {
        running(t)(r as u32) == running(s)(r as u32)
    }) by {
        let q = r as u32;
        lemma_delegation_change_tally(s, who, target, conviction, balance, q);
        lemma_tally_fits(t, q);
    }
}

/// When a delegation is taken back, each open referendum on which the target has a
/// standard vote loses the delegated weight, and the others keep their totals.
pub proof fn lemma_withdraw_settles(
    s: LedgerView,
    voting: Map<u64, Voting>,
    referendums: Seq<ReferendumInfo>,
    who: u64,
    target: u64,
    conviction: Conviction,
    balance: u64,
)
    requires
        consistent(s, voting, referendums),
        s.commitments[who] == (Commitment::Delegating { balance, target, conviction }),
    ensures
        who != target,
        s.with_commitment(who, Commitment::idle()).wf(),
        delegations_of(voting, target).votes >= s.weighted(conviction, balance).votes,
        delegations_of(voting, target).capital >= s.weighted(conviction, balance).capital,
        settles(
            referendums,
            s.commitments[target].votes(),
            false,
            widened(s.weighted(conviction, balance)),
            false,
            running(s),
            running(s.with_commitment(who, Commitment::idle())),
        ),
{
    let t = s.with_commitment(who, Commitment::idle());
    let votes = s.commitments[target].votes();
    let handed = widened(s.weighted(conviction, balance));
    let back = t.with_commitment(who, Commitment::Delegating { balance, target, conviction });
    assert(back.commitments =~= s.commitments);
    assert(record_ok(s, voting, target));
    lemma_delegated_covers(s, who, target);
    assert forall|r: int| 0 <= r < referendums.len() implies (
    #[trigger] referendums[r] matches ReferendumInfo::Ongoing(status) ==> if votes.contains_key(
        r as u32,
    ) {
        let delta = vote_delta(status.weight, votes[r as u32].vote, false, handed);
        running(t)(r as u32) == running(s)(r as u32).minus(delta) && running(s)(r as u32).covers(
            delta,
        )
    } else {
        running(t)(r as u32) == running(s)(r as u32)
    }) by {
        let q = r as u32;
        lemma_delegation_change_tally(t, who, target, conviction, balance, q);
        lemma_tally_covers(t, who, q);
    }
}

/// An idle account that becomes a delegating one keeps the ledger consistent, provided the
/// record of its target carries the delegated weight and the stored tallies are the running
/// totals of the new state.
pub proof fn lemma_delegate_consistent(
    s: LedgerView,
    voting: Map<u64, Voting>,
    referendums: Seq<ReferendumInfo>,
    who: u64,
    target: u64,
    record: Voting,
    target_record: Voting,
    settled: Seq<ReferendumInfo>,
)
    requires
        consistent(s, voting, referendums),
        s.commitments[who] == Commitment::idle(),
        who != target,
        record@ matches Commitment::Delegating { target: to, .. } && to == target,
        record.delegations() == delegations_of(voting, who),
        target_record@ == s.commitments[target],
        target_record.wf(),
        target_record.delegations().votes == delegations_of(voting, target).votes
            + s.with_commitment(who, record@).delegation_from(who, target).votes,
        target_record.delegations().capital == delegations_of(voting, target).capital
            + s.with_commitment(who, record@).delegation_from(who, target).capital,
        s.with_commitment(who, record@).wf(),
        same_referendums(referendums, settled),
        tallies_are(settled, running(s.with_commitment(who, record@))),
    ensures
        consistent(
            s.with_commitment(who, record@),
            voting.insert(who, record).insert(target, target_record),
            settled,
        ),
{
    let t = s.with_commitment(who, record@);
    let stored = voting.insert(who, record).insert(target, target_record);
    assert(t.commitments =~= commitments_of(stored));
    assert(t.referendums =~= referendum_views(settled));
    match record@ {
        Commitment::Delegating { balance, target: to, conviction } => {
            assert forall|a: u64| #[trigger] record_ok(t, stored, a) by {
                assert(record_ok(s, voting, a));
                lemma_delegation_change_delegated(s, who, target, conviction, balance, a);
            }
        },
        _ => {},
    }
}

/// A delegating account that becomes idle keeps the ledger consistent, provided the record
/// of its target no longer carries the delegated weight and the stored tallies are the
/// running totals of the new state.
pub proof fn lemma_withdraw_consistent(
    s: LedgerView,
    voting: Map<u64, Voting>,
    referendums: Seq<ReferendumInfo>,
    who: u64,
    target: u64,
    record: Voting,
    target_record: Voting,
    settled: Seq<ReferendumInfo>,
)
    requires
        consistent(s, voting, referendums),
        s.commitments[who] matches Commitment::Delegating { target: to, .. } && to == target,
        record@ == Commitment::idle(),
        record.wf(),
        record.delegations() == delegations_of(voting, who),
        target_record@ == s.commitments[target],
        target_record.wf(),
        target_record.delegations().votes + s.delegation_from(who, target).votes
            == delegations_of(voting, target).votes,
        target_record.delegations().capital + s.delegation_from(who, target).capital
            == delegations_of(voting, target).capital,
        s.with_commitment(who, Commitment::idle()).wf(),
        same_referendums(referendums, settled),
        tallies_are(settled, running(s.with_commitment(who, Commitment::idle()))),
    ensures
        consistent(
            s.with_commitment(who, Commitment::idle()),
            voting.insert(who, record).insert(target, target_record),
            settled,
        ),
{
    let t = s.with_commitment(who, Commitment::idle());
    let stored = voting.insert(who, record).insert(target, target_record);
    assert(t.commitments =~= commitments_of(stored));
    assert(t.referendums =~= referendum_views(settled));
    match s.commitments[who] {
        Commitment::Delegating { balance, target: to, conviction } => {
            let back = t.with_commitment(
                who,
                Commitment::Delegating { balance, target, conviction },
            );
            assert(back.commitments =~= s.commitments);
            assert forall|a: u64| #[trigger] record_ok(t, stored, a) by {
                assert(record_ok(s, voting, a));
                lemma_delegation_change_delegated(t, who, target, conviction, balance, a);
            }
        },
        _ => {},
    }
}

} // verus!
