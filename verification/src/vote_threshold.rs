//! Approval thresholds.

use vstd::prelude::*;
use crate::math::{isqrt, isqrt_u128};
use crate::types::Tally;

verus! {

/// The rule by which the final tally of a referendum decides approval.
///
/// With `t` the integer square root of the turnout and `e` the integer square root of the
/// electorate:
///
/// | rule                   | approved exactly when               |
/// |------------------------|-------------------------------------|
/// | `SuperMajorityApprove` | `t > 0` and `nays * e < ayes * t`   |
/// | `SuperMajorityAgainst` | `t > 0` and `nays * t < ayes * e`   |
/// | `SimpleMajority`       | `ayes > nays`                       |
#[derive(Clone, Copy, Debug, PartialEq, Eq, Structural)]
pub enum VoteThreshold {
    /// The bar for approval falls as the turnout rises.
    SuperMajorityApprove,
    /// The bar for rejection falls as the turnout rises.
    SuperMajorityAgainst,
    /// More approving than rejecting weight.
    SimpleMajority,
}

/// Whether the fraction `n1 / d1` is smaller than `n2 / d2`, stated without division.
pub open spec fn fraction_less(n1: int, d1: int, n2: int, d2: int) -> bool {
    n1 * d2 < n2 * d1
}

/// Fractions with different integer parts compare as their integer parts do.
proof fn lemma_quotients_decide(n1: int, d1: int, n2: int, d2: int)
    requires
        0 <= n1,
        0 <= n2,
        0 < d1,
        0 < d2,
        n1 / d1 != n2 / d2,
    ensures
        fraction_less(n1, d1, n2, d2) <==> n1 / d1 < n2 / d2,
{
    let q1 = n1 / d1;
    let q2 = n2 / d2;
    let r1 = n1 % d1;
    let r2 = n2 % d2;
    vstd::arithmetic::div_mod::lemma_fundamental_div_mod(n1, d1);
    vstd::arithmetic::div_mod::lemma_fundamental_div_mod(n2, d2);
    if q1 < q2 {
        assert(n1 * d2 < n2 * d1) by (nonlinear_arith)
            requires
                n1 == d1 * q1 + r1,
                n2 == d2 * q2 + r2,
                0 <= r1 < d1,
                0 <= r2,
                0 < d2,
                q1 + 1 <= q2,
        ;
    } else {
        assert(n2 * d1 < n1 * d2) by (nonlinear_arith)
            requires
                n1 == d1 * q1 + r1,
                n2 == d2 * q2 + r2,
                0 <= r2 < d2,
                0 <= r1,
                0 < d1,
                q2 + 1 <= q1,
        ;
    }
}

/// Fractions with the same integer part compare as the reciprocals of their fractional
/// parts do, the other way round.
proof fn lemma_remainders_decide(n1: int, d1: int, n2: int, d2: int)
    requires
        0 <= n1,
        0 <= n2,
        0 < d1,
        0 < d2,
        n1 / d1 == n2 / d2,
    ensures
        fraction_less(n1, d1, n2, d2) <==> fraction_less(d2, n2 % d2, d1, n1 % d1),
{
    let q = n1 / d1;
    let r1 = n1 % d1;
    let r2 = n2 % d2;
    vstd::arithmetic::div_mod::lemma_fundamental_div_mod(n1, d1);
    vstd::arithmetic::div_mod::lemma_fundamental_div_mod(n2, d2);
    assert(n1 * d2 - n2 * d1 == r1 * d2 - r2 * d1) by (nonlinear_arith)
        requires
            n1 == d1 * q + r1,
            n2 == d2 * q + r2,
    ;
}

/// Whether `n1 / d1` is smaller than `n2 / d2`, decided on the continued fractions of the
/// two so that no intermediate value leaves the range of the arguments.
pub fn compare_rationals(n1: u128, d1: u128, n2: u128, d2: u128) -> (less: bool)
    requires
        d1 > 0,
        d2 > 0,
    ensures
        less == fraction_less(n1 as int, d1 as int, n2 as int, d2 as int),
{
    let mut a1: u128 = n1;
    let mut b1: u128 = d1;
    let mut a2: u128 = n2;
    let mut b2: u128 = d2;
    loop
        invariant
            b1 > 0,
            b2 > 0,
            fraction_less(n1 as int, d1 as int, n2 as int, d2 as int) == fraction_less(
                a1 as int,
                b1 as int,
                a2 as int,
                b2 as int,
            ),
        decreases b1 + b2,
    {
        let q1 = a1 / b1;
        let q2 = a2 / b2;
        if q1 != q2 {
            proof {
                lemma_quotients_decide(a1 as int, b1 as int, a2 as int, b2 as int);
            }
            return q1 < q2;
        }
        let r1 = a1 % b1;
        let r2 = a2 % b2;
        proof {
            lemma_remainders_decide(a1 as int, b1 as int, a2 as int, b2 as int);
        }
        if r2 == 0 {
            assert(!fraction_less(b2 as int, 0, b1 as int, r1 as int)) by (nonlinear_arith)
                requires
                    b2 > 0,
                    r1 >= 0,
            ;
            return false;
        }
        if r1 == 0 {
            assert(fraction_less(b2 as int, r2 as int, b1 as int, 0)) by (nonlinear_arith)
                requires
                    b1 > 0,
                    r2 > 0,
            ;
            return true;
        }
        a1 = b2;
        a2 = b1;
        b1 = r2;
        b2 = r1;
    }
}

impl VoteThreshold {
    /// Whether a referendum with the totals `tally` is approved when `electorate` is the
    /// whole balance that could have voted.
    pub open spec fn spec_approved(self, tally: Tally, electorate: u128) -> bool {
        let t = isqrt(tally.turnout as nat) as int;
        let e = isqrt(electorate as nat) as int;
        match self {
            VoteThreshold::SuperMajorityApprove => t > 0 && tally.nays * e < tally.ayes * t,
            VoteThreshold::SuperMajorityAgainst => t > 0 && tally.nays * t < tally.ayes * e,
            VoteThreshold::SimpleMajority => tally.ayes > tally.nays,
        }
    }

    /// Decides approval from the final totals and the size of the electorate.
    pub fn approved(self, tally: Tally, electorate: u128) -> (approved: bool)
        ensures
            approved == self.spec_approved(tally, electorate),
    {
        match self {
            VoteThreshold::SimpleMajority => tally.ayes > tally.nays,
            VoteThreshold::SuperMajorityApprove => {
                let t = isqrt_u128(tally.turnout);
                let e = isqrt_u128(electorate);
                if t == 0 {
                    false
                } else if e == 0 {
                    assert(tally.nays * 0 == 0 && (tally.ayes * t > 0 <==> tally.ayes > 0))
                        by (nonlinear_arith)
                        requires
                            t > 0,
                    ;
                    tally.ayes > 0
                } else {
                    compare_rationals(tally.nays, t, tally.ayes, e)
                }
            },
            VoteThreshold::SuperMajorityAgainst => {
                let t = isqrt_u128(tally.turnout);
                let e = isqrt_u128(electorate);
                if t == 0 || e == 0 {
                    false
                } else {
                    compare_rationals(tally.nays, e, tally.ayes, t)
                }
            },
        }
    }
}

} // verus!
