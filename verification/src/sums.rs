//! Finite sums of an integer-valued function over a range of indices.
//!
//! The trail field's total mass is such a sum, and the laws about mass are
//! proved from the few facts collected here.

use vstd::prelude::*;
use vstd::arithmetic::div_mod::lemma_add_mod_noop_right;
use vstd::arithmetic::div_mod::lemma_mod_bound;

verus! {

/// The sum of `f(i)` over `lo <= i < hi`; zero when the range is empty.
pub open spec fn sum_range(f: spec_fn(int) -> int, lo: int, hi: int) -> int
    decreases hi - lo,
{
    if hi <= lo {
        0
    } else {
        sum_range(f, lo, hi - 1) + f(hi - 1)
    }
}

/// A function that is nowhere larger than another on the range has no larger sum.
pub proof fn lemma_sum_monotone(f: spec_fn(int) -> int, g: spec_fn(int) -> int, lo: int, hi: int)
    requires
        forall|i: int| lo <= i < hi ==> #[trigger] f(i) <= g(i),
    ensures
        sum_range(f, lo, hi) <= sum_range(g, lo, hi),
    decreases hi - lo,
{
    if hi > lo {
        lemma_sum_monotone(f, g, lo, hi - 1);
    }
}

/// A range cut in two sums to the sum of its parts.
pub proof fn lemma_sum_split(f: spec_fn(int) -> int, lo: int, mid: int, hi: int)
    requires
        lo <= mid <= hi,
    ensures
        sum_range(f, lo, hi) == sum_range(f, lo, mid) + sum_range(f, mid, hi),
    decreases hi - mid,
{
    if hi > mid {
        lemma_sum_split(f, lo, mid, hi - 1);
    }
}

/// Summing `g(i) = f(i + k)` over a range is summing `f` over the range moved by `k`.
pub proof fn lemma_sum_shift(
    f: spec_fn(int) -> int,
    g: spec_fn(int) -> int,
    k: int,
    lo: int,
    hi: int,
)
    requires
        forall|i: int| lo <= i < hi ==> #[trigger] g(i) == f(i + k),
    ensures
        sum_range(g, lo, hi) == sum_range(f, lo + k, hi + k),
    decreases hi - lo,
{
    if hi > lo {
        lemma_sum_shift(f, g, k, lo, hi - 1);
    }
}

/// Scaling every term by `c >= 0` and rounding down scales the sum by at most `c`:
/// if `c * q(i) <= f(i)` everywhere, then `c * sum(q) <= sum(f)`.
pub proof fn lemma_sum_scaled_below(
    q: spec_fn(int) -> int,
    f: spec_fn(int) -> int,
    c: int,
    lo: int,
    hi: int,
)
    requires
        forall|i: int| lo <= i < hi ==> c * #[trigger] q(i) <= f(i),
    ensures
        c * sum_range(q, lo, hi) <= sum_range(f, lo, hi),
    decreases hi - lo,
{
    if hi > lo {
        lemma_sum_scaled_below(q, f, c, lo, hi - 1);
        assert(c * (sum_range(q, lo, hi - 1) + q(hi - 1)) == c * sum_range(q, lo, hi - 1) + c * q(
            hi - 1,
        )) by (nonlinear_arith);
    } else {
        assert(c * 0 == 0);
    }
}

/// Reading a function around a ring of `n` places, starting `k` places on,
/// sums to the same as reading it from the start.
pub proof fn lemma_sum_rotate(f: spec_fn(int) -> int, g: spec_fn(int) -> int, k: int, n: int)
    requires
        0 <= k < n,
        forall|i: int| 0 <= i < n ==> #[trigger] g(i) == f((i + k) % n),
    ensures
        sum_range(g, 0, n) == sum_range(f, 0, n),
{
    assert forall|i: int| 0 <= i < n - k implies #[trigger] g(i) == f(i + k) by {
        assert((i + k) % n == i + k) by (nonlinear_arith)
            requires
                0 <= i + k < n,
        ;
    }
    assert forall|i: int| n - k <= i < n implies #[trigger] g(i) == f(i + (k - n)) by {
        assert((i + k) % n == i + k - n) by (nonlinear_arith)
            requires
                n <= i + k < 2 * n,
        ;
    }
    lemma_sum_shift(f, g, k, 0, n - k);
    lemma_sum_shift(f, g, k - n, n - k, n);
    lemma_sum_split(g, 0, n - k, n);
    lemma_sum_split(f, 0, k, n);
}

/// Reading a function around a ring of `n` places, `d` places off in either
/// direction, sums to the same as reading it in place.
pub proof fn lemma_sum_ring(f: spec_fn(int) -> int, g: spec_fn(int) -> int, d: int, n: int)
    requires
        0 < n,
        forall|i: int| 0 <= i < n ==> #[trigger] g(i) == f((i + d) % n),
    ensures
        sum_range(g, 0, n) == sum_range(f, 0, n),
{
    let k = d % n;
    lemma_mod_bound(d, n);
    assert forall|i: int| 0 <= i < n implies #[trigger] g(i) == f((i + k) % n) by {
        lemma_add_mod_noop_right(i, d, n);
    }
    lemma_sum_rotate(f, g, k, n);
}

/// The sum of a pointwise sum of three functions is the sum of the three sums.
pub proof fn lemma_sum_add3(
    a: spec_fn(int) -> int,
    b: spec_fn(int) -> int,
    c: spec_fn(int) -> int,
    s: spec_fn(int) -> int,
    lo: int,
    hi: int,
)
    requires
        forall|i: int| lo <= i < hi ==> #[trigger] s(i) == a(i) + b(i) + c(i),
    ensures
        sum_range(s, lo, hi) == sum_range(a, lo, hi) + sum_range(b, lo, hi) + sum_range(c, lo, hi),
    decreases hi - lo,
{
    if hi > lo {
        lemma_sum_add3(a, b, c, s, lo, hi - 1);
    }
}

} // verus!
