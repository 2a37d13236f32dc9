//! Finite sums of integer-valued functions.

use vstd::prelude::*;

verus! {

/// The sum of `f(0), ..., f(n - 1)`.
pub open spec fn sum_below(f: spec_fn(int) -> int, n: nat) -> int
    decreases n,
{
    if n == 0 {
        0
    } else {
        sum_below(f, (n - 1) as nat) + f(n - 1)
    }
}

/// Functions that agree below `n` have the same sum.
pub proof fn lemma_sum_congruent(f: spec_fn(int) -> int, g: spec_fn(int) -> int, n: nat)
    requires
        forall|i: int| 0 <= i < n ==> #[trigger] f(i) == g(i),
    ensures
        sum_below(f, n) == sum_below(g, n),
    decreases n,
{
    if n > 0 {
        lemma_sum_congruent(f, g, (n - 1) as nat);
    }
}

/// A sum of zeros is zero.
pub proof fn lemma_sum_zero(f: spec_fn(int) -> int, n: nat)
    requires
        forall|i: int| 0 <= i < n ==> #[trigger] f(i) == 0,
    ensures
        sum_below(f, n) == 0,
    decreases n,
{
    if n > 0 {
        lemma_sum_zero(f, (n - 1) as nat);
    }
}

/// A pointwise smaller function has a smaller sum.
pub proof fn lemma_sum_monotone(f: spec_fn(int) -> int, g: spec_fn(int) -> int, n: nat)
    requires
        forall|i: int| 0 <= i < n ==> #[trigger] f(i) <= g(i),
    ensures
        sum_below(f, n) <= sum_below(g, n),
    decreases n,
{
    if n > 0 {
        lemma_sum_monotone(f, g, (n - 1) as nat);
    }
}

/// The sum of `n` values between 0 and `hi` lies between 0 and `n * hi`.
pub proof fn lemma_sum_bounded(f: spec_fn(int) -> int, n: nat, hi: int)
    requires
        forall|i: int| 0 <= i < n ==> 0 <= #[trigger] f(i) <= hi,
    ensures
        0 <= sum_below(f, n) <= n * hi,
    decreases n,
{
    if n > 0 {
        lemma_sum_bounded(f, (n - 1) as nat, hi);
        assert((n - 1) * hi + hi == n * hi) by (nonlinear_arith);
    } else {
        assert(0 * hi == 0) by (nonlinear_arith);
    }
}

/// Where no value is negative, the sum is at least each single value.
pub proof fn lemma_sum_covers_term(f: spec_fn(int) -> int, n: nat, p: int)
    requires
        forall|i: int| 0 <= i < n ==> 0 <= #[trigger] f(i),
        0 <= p < n,
    ensures
        f(p) <= sum_below(f, n),
    decreases n,
{
    if p < n - 1 {
        lemma_sum_covers_term(f, (n - 1) as nat, p);
    } else {
        lemma_sum_bounded_below(f, (n - 1) as nat);
    }
}

/// A sum of values that are not negative is not negative.
pub proof fn lemma_sum_bounded_below(f: spec_fn(int) -> int, n: nat)
    requires
        forall|i: int| 0 <= i < n ==> 0 <= #[trigger] f(i),
    ensures
        0 <= sum_below(f, n),
    decreases n,
{
    if n > 0 {
        lemma_sum_bounded_below(f, (n - 1) as nat);
    }
}

/// The sum of a pointwise sum is the sum of the sums.
pub proof fn lemma_sum_add(
    f: spec_fn(int) -> int,
    g: spec_fn(int) -> int,
    h: spec_fn(int) -> int,
    n: nat,
)
    requires
        forall|i: int| 0 <= i < n ==> #[trigger] h(i) == f(i) + g(i),
    ensures
        sum_below(h, n) == sum_below(f, n) + sum_below(g, n),
    decreases n,
{
    if n > 0 {
        lemma_sum_add(f, g, h, (n - 1) as nat);
    }
}

/// Functions that differ at `p` alone have sums that differ by the difference at `p`.
pub proof fn lemma_sum_update(f: spec_fn(int) -> int, g: spec_fn(int) -> int, n: nat, p: int)
    requires
        0 <= p < n,
        forall|i: int| 0 <= i < n && i != p ==> #[trigger] f(i) == g(i),
    ensures
        sum_below(g, n) == sum_below(f, n) - f(p) + g(p),
    decreases n,
{
    if p < n - 1 {
        lemma_sum_update(f, g, (n - 1) as nat, p);
    } else {
        lemma_sum_congruent(f, g, (n - 1) as nat);
    }
}

/// A function that vanishes everywhere but at `p` sums to its value at `p`.
pub proof fn lemma_sum_single(f: spec_fn(int) -> int, n: nat, p: int)
    requires
        0 <= p < n,
        forall|i: int| 0 <= i < n && i != p ==> #[trigger] f(i) == 0,
    ensures
        sum_below(f, n) == f(p),
{
    let zero = |i: int| 0int;
    lemma_sum_zero(zero, n);
    lemma_sum_update(zero, f, n, p);
}

/// A double sum may be taken in either order: with `row(a)(d) == col(d)(a)`, the row sums
/// `rows` and the column sums `cols` have the same total.
pub proof fn lemma_sum_exchange(
    row: spec_fn(int) -> spec_fn(int) -> int,
    col: spec_fn(int) -> spec_fn(int) -> int,
    rows: spec_fn(int) -> int,
    cols: spec_fn(int) -> int,
    n: nat,
    m: nat,
)
    requires
        forall|a: int, d: int| 0 <= a < n && 0 <= d < m ==> #[trigger] row(a)(d) == col(d)(a),
        forall|a: int| 0 <= a < n ==> #[trigger] rows(a) == sum_below(row(a), m),
        forall|d: int| 0 <= d < m ==> #[trigger] cols(d) == sum_below(col(d), n),
    ensures
        sum_below(rows, n) == sum_below(cols, m),
    decreases n,
{
    if n == 0 {
        lemma_sum_zero(cols, m);
    } else {
        let shorter = |d: int| sum_below(col(d), (n - 1) as nat);
        lemma_sum_exchange(row, col, rows, shorter, (n - 1) as nat, m);
        lemma_sum_add(shorter, row(n - 1), cols, m);
    }
}

} // verus!
