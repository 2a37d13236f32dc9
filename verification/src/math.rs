//! Integer square roots.

use vstd::prelude::*;

verus! {

/// `r` is the integer square root of `n`: the largest natural number whose square does not
/// exceed `n`.
pub open spec fn is_integer_sqrt(n: nat, r: nat) -> bool {
    r * r <= n && n < (r + 1) * (r + 1)
}

/// The integer square root of `n`, truncated toward zero.
pub open spec fn isqrt(n: nat) -> nat {
    choose|r: nat| is_integer_sqrt(n, r)
}

/// At most one number is the integer square root of `n`.
pub proof fn lemma_integer_sqrt_unique(n: nat, r1: nat, r2: nat)
    requires
        is_integer_sqrt(n, r1),
        is_integer_sqrt(n, r2),
    ensures
        r1 == r2,
{
    if r1 < r2 {
        assert((r1 + 1) * (r1 + 1) <= r2 * r2) by (nonlinear_arith)
            requires
                r1 + 1 <= r2,
        ;
    }
    if r2 < r1 {
        assert((r2 + 1) * (r2 + 1) <= r1 * r1) by (nonlinear_arith)
            requires
                r2 + 1 <= r1,
        ;
    }
}

/// Every natural number has an integer square root.
pub proof fn lemma_integer_sqrt_exists(n: nat) -> (r: nat)
    ensures
        is_integer_sqrt(n, r),
    decreases n,
{
    if n == 0 {
        assert(is_integer_sqrt(0, 0)) by (nonlinear_arith);
        0
    } else {
        let p = lemma_integer_sqrt_exists((n - 1) as nat);
        if (p + 1) * (p + 1) <= n {
            assert(n < (p + 2) * (p + 2)) by (nonlinear_arith)
                requires
                    n - 1 < (p + 1) * (p + 1),
            ;
            p + 1
        } else {
            p
        }
    }
}

/// `isqrt(n)` is the one number that satisfies `is_integer_sqrt(n, _)`.
pub proof fn lemma_isqrt(n: nat, r: nat)
    requires
        is_integer_sqrt(n, r),
    ensures
        isqrt(n) == r,
{
    lemma_integer_sqrt_unique(n, r, isqrt(n));
}

/// The defining inequalities of `isqrt`, and that a root never exceeds its argument.
pub proof fn lemma_isqrt_bounds(n: nat)
    ensures
        is_integer_sqrt(n, isqrt(n)),
        isqrt(n) <= n,
{
    let r = lemma_integer_sqrt_exists(n);
    lemma_isqrt(n, r);
    assert(r <= n) by (nonlinear_arith)
        requires
            r * r <= n,
    ;
}

/// Calls `sp_runtime::traits::IntegerSquareRoot::integer_sqrt` on a `u128`. The trait is that
/// of the crate `integer-sqrt`, which `sp_runtime` hands on.
///
/// Trusted: the result is taken to be the floor of the square root of `n`, as the outside
/// crate documents; for an unsigned argument the call does not panic.
#[verifier::external_body]
pub(crate) fn integer_sqrt(n: u128) -> (r: u128)
    ensures
        is_integer_sqrt(n as nat, r as nat),
{
    sp_runtime::traits::IntegerSquareRoot::integer_sqrt(&n)
}

/// The integer square root of a 128-bit number.
pub fn isqrt_u128(n: u128) -> (r: u128)
    ensures
        r == isqrt(n as nat),
{
    let r = integer_sqrt(n);
    proof {
        lemma_isqrt(n as nat, r as nat);
    }
    r
}

/// The integer square root of a 64-bit number.
pub fn isqrt_u64(n: u64) -> (r: u64)
    ensures
        r == isqrt(n as nat),
{
    let r = integer_sqrt(n as u128);
    proof {
        lemma_isqrt(n as nat, r as nat);
        lemma_isqrt_bounds(n as nat);
    }
    r as u64
}

} // verus!
