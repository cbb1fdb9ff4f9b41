//! Finite sums of integers, and how a sum changes when a few of its terms
//! change.

use vstd::prelude::*;

verus! {

/// The sum of `f(0)`, ..., `f(n - 1)`.
pub open spec fn sum_to(f: spec_fn(int) -> int, n: nat) -> int
    decreases n,
{
    if n == 0 {
        0
    } else {
        sum_to(f, (n - 1) as nat) + f(n - 1)
    }
}

/// A sum of terms between `lo` and `hi` lies between `n * lo` and `n * hi`.
pub proof fn lemma_sum_bounds(f: spec_fn(int) -> int, n: nat, lo: int, hi: int)
    requires
        forall|i: int| 0 <= i < n ==> lo <= #[trigger] f(i) <= hi,
    ensures
        n * lo <= sum_to(f, n) <= n * hi,
    decreases n,
{
    if n > 0 {
        lemma_sum_bounds(f, (n - 1) as nat, lo, hi);
        assert(n * lo == (n - 1) * lo + lo) by (nonlinear_arith);
        assert(n * hi == (n - 1) * hi + hi) by (nonlinear_arith);
    } else {
        assert(n * lo == 0 && n * hi == 0) by (nonlinear_arith)
            requires
                n == 0,
        ;
    }
}

/// A sum of terms that are 0 or more is 0 or more.
pub proof fn lemma_sum_nonnegative(f: spec_fn(int) -> int, n: nat)
    requires
        forall|i: int| 0 <= i < n ==> 0 <= #[trigger] f(i),
    ensures
        0 <= sum_to(f, n),
    decreases n,
{
    if n > 0 {
        lemma_sum_nonnegative(f, (n - 1) as nat);
    }
}

/// A sum of terms that are 0 or more is at least any one of its terms.
pub proof fn lemma_sum_at_least(f: spec_fn(int) -> int, n: nat, a: int)
    requires
        forall|i: int| 0 <= i < n ==> 0 <= #[trigger] f(i),
        0 <= a < n,
    ensures
        f(a) <= sum_to(f, n),
    decreases n,
{
    if a == n - 1 {
        lemma_sum_nonnegative(f, (n - 1) as nat);
    } else {
        lemma_sum_at_least(f, (n - 1) as nat, a);
    }
}

/// A sum of terms that are 0 or more is at least any two of its terms
/// together.
pub proof fn lemma_sum_at_least_two(f: spec_fn(int) -> int, n: nat, a: int, b: int)
    requires
        forall|i: int| 0 <= i < n ==> 0 <= #[trigger] f(i),
        0 <= a < b < n,
    ensures
        f(a) + f(b) <= sum_to(f, n),
    decreases n,
{
    if b == n - 1 {
        lemma_sum_at_least(f, (n - 1) as nat, a);
    } else {
        lemma_sum_at_least_two(f, (n - 1) as nat, a, b);
    }
}

/// What `g` has at index `x` over what `f` has there, or 0 if `x` is not an
/// index below `n`.
pub open spec fn gain(f: spec_fn(int) -> int, g: spec_fn(int) -> int, n: nat, x: int) -> int {
    if 0 <= x < n {
        g(x) - f(x)
    } else {
        0
    }
}

/// Two sums whose terms agree everywhere but at `a`, `b` and `c` differ by
/// what the terms differ there.
pub proof fn lemma_sum_delta(
    f: spec_fn(int) -> int,
    g: spec_fn(int) -> int,
    n: nat,
    a: int,
    b: int,
    c: int,
)
    requires
        forall|i: int| 0 <= i < n && i != a && i != b && i != c ==> #[trigger] f(i) == g(i),
        a != b || !(0 <= a < n),
        a != c || !(0 <= a < n),
        b != c || !(0 <= b < n),
    ensures
        sum_to(g, n) == sum_to(f, n) + gain(f, g, n, a) + gain(f, g, n, b) + gain(f, g, n, c),
    decreases n,
{
    if n > 0 {
        let m = (n - 1) as nat;
        lemma_sum_delta(f, g, m, a, b, c);
    }
}

/// A sum of `n` terms that are 0 or 1 is `n` exactly when every term is 1.
pub proof fn lemma_sum_all_ones(f: spec_fn(int) -> int, n: nat)
    requires
        forall|i: int| 0 <= i < n ==> 0 <= #[trigger] f(i) <= 1,
    ensures
        sum_to(f, n) <= n,
        sum_to(f, n) == n <==> forall|i: int| 0 <= i < n ==> #[trigger] f(i) == 1,
    decreases n,
{
    if n > 0 {
        lemma_sum_all_ones(f, (n - 1) as nat);
    }
}

} // verus!
