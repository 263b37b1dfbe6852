//! Finite integer sums and the facts about them that the transform proofs use.
use vstd::arithmetic::div_mod::lemma_add_mod_noop;
use vstd::prelude::*;

verus! {

/// `f(0) + f(1) + ... + f(n - 1)` over the integers.
pub open spec fn isum(f: spec_fn(int) -> int, n: nat) -> int
    decreases n,
{
    if n == 0 {
        0
    } else {
        isum(f, (n - 1) as nat) + f(n - 1)
    }
}

pub proof fn lemma_isum_ext(f: spec_fn(int) -> int, g: spec_fn(int) -> int, n: nat)
    requires
        forall|j: int| 0 <= j < n ==> #[trigger] f(j) == g(j),
    ensures
        isum(f, n) == isum(g, n),
    decreases n,
{
    if n > 0 {
        lemma_isum_ext(f, g, (n - 1) as nat);
    }
}

/// Sums of terms congruent modulo 257 are congruent.
pub proof fn lemma_isum_congruent(f: spec_fn(int) -> int, g: spec_fn(int) -> int, n: nat)
    requires
        forall|j: int| 0 <= j < n ==> #[trigger] f(j) % 257 == g(j) % 257,
    ensures
        isum(f, n) % 257 == isum(g, n) % 257,
    decreases n,
{
    if n > 0 {
        let m = (n - 1) as nat;
        lemma_isum_congruent(f, g, m);
        lemma_add_mod_noop(isum(f, m), f(m as int), 257);
        lemma_add_mod_noop(isum(g, m), g(m as int), 257);
    }
}

pub proof fn lemma_isum_scale(f: spec_fn(int) -> int, c: int, n: nat)
    ensures
        isum(|j: int| c * f(j), n) == c * isum(f, n),
    decreases n,
{
    if n > 0 {
        let m = (n - 1) as nat;
        lemma_isum_scale(f, c, m);
        assert(c * isum(f, m) + c * f(m as int) == c * (isum(f, m) + f(m as int))) by (nonlinear_arith);
    }
}

/// `sum (f + g) = sum f + sum g`, for any `h` that is `f + g` pointwise.
pub proof fn lemma_isum_add(
    f: spec_fn(int) -> int,
    g: spec_fn(int) -> int,
    h: spec_fn(int) -> int,
    n: nat,
)
    requires
        forall|j: int| 0 <= j < n ==> #[trigger] h(j) == f(j) + g(j),
    ensures
        isum(h, n) == isum(f, n) + isum(g, n),
    decreases n,
{
    if n > 0 {
        lemma_isum_add(f, g, h, (n - 1) as nat);
    }
}

/// `sum_{j < n+1} f(j) = f(0) + sum_{j < n} f(j + 1)`.
pub proof fn lemma_isum_peel_first(f: spec_fn(int) -> int, n: nat)
    ensures
        isum(f, n + 1) == f(0) + isum(|j: int| f(j + 1), n),
    decreases n,
{
    reveal_with_fuel(isum, 2);
    if n > 0 {
        lemma_isum_peel_first(f, (n - 1) as nat);
        assert((n - 1) as nat + 1 == n);
    }
}

/// A sum whose terms vanish off `i` is its term at `i`.
pub proof fn lemma_isum_single(f: spec_fn(int) -> int, n: nat, i: int)
    requires
        0 <= i < n,
        forall|j: int| 0 <= j < n && j != i ==> #[trigger] f(j) == 0,
    ensures
        isum(f, n) == f(i),
    decreases n,
{
    if n > 0 {
        let m = (n - 1) as nat;
        if i < m {
            lemma_isum_single(f, m, i);
        } else {
            lemma_isum_zero(f, m);
        }
    }
}

/// A sum of zeros.
pub proof fn lemma_isum_zero(f: spec_fn(int) -> int, n: nat)
    requires
        forall|j: int| 0 <= j < n ==> #[trigger] f(j) == 0,
    ensures
        isum(f, n) == 0,
    decreases n,
{
    if n > 0 {
        lemma_isum_zero(f, (n - 1) as nat);
    }
}

/// The order of a finite double sum can be exchanged.
pub proof fn lemma_isum_exchange(f: spec_fn(int, int) -> int, n: nat, m: nat)
    ensures
        isum(|i: int| isum(|j: int| f(i, j), m), n) == isum(|j: int| isum(|i: int| f(i, j), n), m),
    decreases n,
{
    if n > 0 {
        let k = (n - 1) as nat;
        lemma_isum_exchange(f, k, m);
        // sum_j sum_{i < n} f(i, j) = sum_j (sum_{i < k} f(i, j) + f(k, j))
        lemma_isum_add(
            |j: int| isum(|i: int| f(i, j), k),
            |j: int| f(k as int, j),
            |j: int| isum(|i: int| f(i, j), n),
            m,
        );
        assert(isum(|i: int| isum(|j: int| f(i, j), m), n) == isum(
            |i: int| isum(|j: int| f(i, j), m),
            k,
        ) + isum(|j: int| f(k as int, j), m));
    } else {
        lemma_isum_zero(|j: int| isum(|i: int| f(i, j), n), m);
    }
}

} // verus!
