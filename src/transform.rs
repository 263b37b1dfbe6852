//! The length-2^l cyclic transform as a sum, and the algebra of one butterfly stage.
use crate::arith::{canonical, fadd, fmul, fsub, lemma_zpow_adds, lemma_zpow_range, zpow};
use vstd::arithmetic::div_mod::{
    lemma_add_mod_noop, lemma_fundamental_div_mod, lemma_fundamental_div_mod_converse, lemma_mul_mod_noop_right,
    lemma_small_mod, lemma_sub_mod_noop,
};
use vstd::arithmetic::power2::{lemma2_to64, lemma_pow2_adds, lemma_pow2_pos, lemma_pow2_unfold, pow2};
use vstd::prelude::*;

verus! {

/// `sum_{m < c} x[r + t m] * w^(t m k)`, as an integer.
pub open spec fn dft_sum(x: Seq<int>, w: int, r: int, t: int, c: nat, k: int) -> int
    decreases c,
{
    if c == 0 {
        0
    } else {
        dft_sum(x, w, r, t, (c - 1) as nat, k) + x[r + t * (c - 1)] * zpow(
            w,
            (t * (c - 1) * k) as nat,
        )
    }
}

/// The length-`n` cyclic transform with root `w`: `Y[k] = sum_j x[j] w^(jk) mod 257`.
pub open spec fn dft(x: Seq<int>, w: int) -> Seq<int> {
    Seq::new(x.len(), |k: int| dft_sum(x, w, 0, 1, x.len(), k) % 257)
}

/// `sum_{m < h} x[r + t + 2 t m] * w^(t (2m + 1) k)`: the odd-indexed half of a transform sum.
pub open spec fn odd_sum(x: Seq<int>, w: int, r: int, t: int, h: nat, k: int) -> int
    decreases h,
{
    if h == 0 {
        0
    } else {
        odd_sum(x, w, r, t, (h - 1) as nat, k) + x[r + t + 2 * t * (h - 1)] * zpow(
            w,
            (t * (2 * (h - 1) + 1) * k) as nat,
        )
    }
}

/// `k` with its lowest `l` bits in reverse order.
pub open spec fn rev(k: int, l: nat) -> int
    decreases l,
{
    if l == 0 {
        0
    } else {
        2 * rev(k, (l - 1) as nat) + (k / pow2((l - 1) as nat) as int) % 2
    }
}

/// The value at position `p` after `s` butterfly stages of a length-`2^l` transform of `x`:
/// the transform of length `2^s`, at index `p mod 2^s`, of the subsequence of `x` that the
/// chunk `p / 2^s` gathers.
pub open spec fn level(x: Seq<int>, w: int, l: nat, s: nat, p: int) -> int {
    dft_sum(
        x,
        w,
        rev(p / pow2(s) as int, (l - s) as nat),
        pow2((l - s) as nat) as int,
        pow2(s),
        p % pow2(s) as int,
    ) % 257
}

pub proof fn lemma_rev_bounds(k: int, l: nat)
    ensures
        0 <= rev(k, l) < pow2(l),
    decreases l,
{
    lemma2_to64();
    if l > 0 {
        lemma_rev_bounds(k, (l - 1) as nat);
        lemma_pow2_unfold(l);
        lemma_pow2_pos((l - 1) as nat);
    }
}

proof fn lemma_rev_even_odd(q: int, l: nat)
    requires
        q >= 0,
    ensures
        rev(2 * q, l + 1) == rev(q, l),
        rev(2 * q + 1, l + 1) == rev(q, l) + pow2(l),
    decreases l,
{
    lemma_pow2_unfold(l + 1);
    if l == 0 {
        lemma2_to64();
        assert((2 * q) / 1 == 2 * q);
        assert((2 * q + 1) / 1 == 2 * q + 1);
        assert(rev(2 * q, 1) == 2 * rev(2 * q, 0) + (2 * q / pow2(0) as int) % 2);
        assert(rev(2 * q + 1, 1) == 2 * rev(2 * q + 1, 0) + ((2 * q + 1) / pow2(0) as int) % 2);
        lemma2_to64();
    } else {
        lemma_rev_even_odd(q, (l - 1) as nat);
        lemma_pow2_unfold(l);
        lemma_pow2_pos((l - 1) as nat);
        let d = pow2((l - 1) as nat) as int;
        assert(pow2(l) == 2 * d);
        lemma_fundamental_div_mod(q, d);
        let qd = q / d;
        let qm = q % d;
        assert(2 * q == qd * (2 * d) + 2 * qm) by (nonlinear_arith)
            requires
                q == d * qd + qm,
        ;
        lemma_fundamental_div_mod_converse(2 * q, 2 * d, q / d, 2 * (q % d));
        lemma_fundamental_div_mod_converse(2 * q + 1, 2 * d, q / d, 2 * (q % d) + 1);
        assert(rev(2 * q, l + 1) == 2 * rev(2 * q, l) + (2 * q / pow2(l) as int) % 2);
        assert(rev(2 * q + 1, l + 1) == 2 * rev(2 * q + 1, l) + ((2 * q + 1) / pow2(l) as int)
            % 2);
        assert(rev(q, l) == 2 * rev(q, (l - 1) as nat) + (q / d) % 2);
        assert(rev(2 * q, l) == rev(q, (l - 1) as nat));
        assert((2 * q) / pow2(l) as int == q / d);
    }
}

proof fn lemma_dft_sum_split(x: Seq<int>, w: int, r: int, t: int, h: nat, k: int)
    requires
        t >= 0,
        k >= 0,
    ensures
        dft_sum(x, w, r, t, 2 * h, k) == dft_sum(x, w, r, 2 * t, h, k) + odd_sum(x, w, r, t, h, k),
    decreases h,
{
    if h > 0 {
        let j = (h - 1) as nat;
        lemma_dft_sum_split(x, w, r, t, j, k);
        assert((2 * h - 1) as nat == 2 * j + 1);
        assert((2 * h - 2) as nat == 2 * j);
        assert(dft_sum(x, w, r, t, 2 * h, k) == dft_sum(x, w, r, t, (2 * j + 1) as nat, k) + x[r
            + t * (2 * j + 1)] * zpow(w, (t * (2 * j + 1) * k) as nat));
        assert(dft_sum(x, w, r, t, (2 * j + 1) as nat, k) == dft_sum(x, w, r, t, 2 * j, k) + x[r
            + t * (2 * j)] * zpow(w, (t * (2 * j) * k) as nat));
        assert(t * (2 * j) == (2 * t) * j) by (nonlinear_arith);
        assert(t * (2 * j) * k == (2 * t) * j * k) by (nonlinear_arith);
        assert(r + t * (2 * j + 1) == r + t + 2 * t * j) by (nonlinear_arith);
    }
}

/// `w^(j e) = 1` whenever `w^e = 1`.
pub proof fn lemma_zpow_multiple_one(w: int, e: nat, j: nat)
    requires
        canonical(w),
        zpow(w, e) == 1,
    ensures
        zpow(w, j * e) == 1,
    decreases j,
{
    if j == 0 {
        assert(zpow(w, 0) == 1);
    } else {
        lemma_zpow_multiple_one(w, e, (j - 1) as nat);
        assert(((j - 1) as nat) * e + e == j * e) by (nonlinear_arith)
            requires
                j >= 1,
        ;
        lemma_zpow_adds(w, ((j - 1) as nat) * e, e);
    }
}

proof fn lemma_dft_sum_periodic(x: Seq<int>, w: int, r: int, t: int, h: nat, c: nat, i: int)
    requires
        canonical(w),
        t >= 0,
        i >= 0,
        zpow(w, (2 * t * h) as nat) == 1,
    ensures
        dft_sum(x, w, r, 2 * t, c, i + h) == dft_sum(x, w, r, 2 * t, c, i),
    decreases c,
{
    if c > 0 {
        let j = (c - 1) as nat;
        lemma_dft_sum_periodic(x, w, r, t, h, j, i);
        let e1 = (2 * t * j * i) as nat;
        let e2 = (2 * t * h) as nat;
        assert(2 * t * j * (i + h) == e1 + j * e2) by (nonlinear_arith)
            requires
                e1 == 2 * t * j * i,
                e2 == 2 * t * h,
        ;
        assert(2 * t * j * i >= 0) by (nonlinear_arith)
            requires
                t >= 0,
                i >= 0,
        ;
        assert(j * e2 >= 0) by (nonlinear_arith);
        lemma_zpow_adds(w, e1, j * e2);
        lemma_zpow_multiple_one(w, e2, j);
        lemma_zpow_range(w, e1);
        lemma_small_mod(zpow(w, e1) as nat, 257);
        assert((e1 + j * e2) as nat == (2 * t * j * (i + h)) as nat);
    }
}

proof fn lemma_odd_sum_factor(x: Seq<int>, w: int, r: int, t: int, c: nat, k: int)
    requires
        canonical(w),
        t >= 0,
        k >= 0,
    ensures
        odd_sum(x, w, r, t, c, k) % 257 == (zpow(w, (t * k) as nat) * dft_sum(
            x,
            w,
            r + t,
            2 * t,
            c,
            k,
        )) % 257,
    decreases c,
{
    let b = zpow(w, (t * k) as nat);
    if c == 0 {
        assert(b * 0 == 0);
    } else {
        let j = (c - 1) as nat;
        lemma_odd_sum_factor(x, w, r, t, j, k);
        let xj = x[r + t + 2 * t * j];
        let ea = (2 * t * j * k) as nat;
        let a = zpow(w, ea);
        assert(2 * t * j * k >= 0) by (nonlinear_arith)
            requires
                t >= 0,
                k >= 0,
        ;
        assert(t * k >= 0) by (nonlinear_arith)
            requires
                t >= 0,
                k >= 0,
        ;
        assert(t * (2 * j + 1) * k == 2 * t * j * k + t * k) by (nonlinear_arith);
        assert((t * (2 * j + 1) * k) as nat == ea + (t * k) as nat);
        lemma_zpow_adds(w, ea, (t * k) as nat);
        let d = dft_sum(x, w, r + t, 2 * t, j, k);
        let o = odd_sum(x, w, r, t, j, k);
        assert(odd_sum(x, w, r, t, c, k) == o + xj * ((a * b) % 257));
        assert(dft_sum(x, w, r + t, 2 * t, c, k) == d + xj * a) by {
            assert(r + t + 2 * t * j == (r + t) + (2 * t) * j);
            assert((2 * t) * j * k == 2 * t * j * k) by (nonlinear_arith);
        }
        lemma_mul_mod_noop_right(xj, a * b, 257);
        lemma_add_mod_noop(o, xj * ((a * b) % 257), 257);
        lemma_add_mod_noop(o, xj * (a * b), 257);
        lemma_add_mod_noop(b * d, b * (xj * a), 257);
        assert(xj * (a * b) == b * (xj * a)) by (nonlinear_arith);
        assert(b * d + b * (xj * a) == b * (d + xj * a)) by (nonlinear_arith);
    }
}

/// One butterfly: the transform of length `2h` at index `i` and `i + h` from the two
/// transforms of length `h` over its even- and odd-indexed halves.
proof fn lemma_butterfly_sums(x: Seq<int>, w: int, r: int, t: int, h: nat, i: int)
    requires
        canonical(w),
        t >= 0,
        0 <= i,
        zpow(w, (t * h) as nat) == 256,
        zpow(w, (2 * t * h) as nat) == 1,
    ensures
        dft_sum(x, w, r, t, 2 * h, i) % 257 == fadd(
            dft_sum(x, w, r, 2 * t, h, i) % 257,
            fmul(dft_sum(x, w, r + t, 2 * t, h, i) % 257, zpow(w, (i * t) as nat)),
        ),
        dft_sum(x, w, r, t, 2 * h, i + h) % 257 == fsub(
            dft_sum(x, w, r, 2 * t, h, i) % 257,
            fmul(dft_sum(x, w, r + t, 2 * t, h, i) % 257, zpow(w, (i * t) as nat)),
        ),
{
    let e = dft_sum(x, w, r, 2 * t, h, i);
    let d = dft_sum(x, w, r + t, 2 * t, h, i);
    assert(i * t == t * i) by (nonlinear_arith);
    assert(t * i >= 0) by (nonlinear_arith)
        requires
            t >= 0,
            i >= 0,
    ;
    let tw = zpow(w, (t * i) as nat);
    lemma_zpow_range(w, (t * i) as nat);
    // index i
    lemma_dft_sum_split(x, w, r, t, h, i);
    lemma_odd_sum_factor(x, w, r, t, h, i);
    let o = odd_sum(x, w, r, t, h, i);
    lemma_add_mod_noop(e, o, 257);
    lemma_add_mod_noop(e, tw * d, 257);
    lemma_mul_mod_noop_right(tw, d, 257);
    assert(tw * (d % 257) == (d % 257) * tw) by (nonlinear_arith);
    // index i + h
    lemma_dft_sum_split(x, w, r, t, h, i + h);
    lemma_odd_sum_factor(x, w, r, t, h, i + h);
    lemma_dft_sum_periodic(x, w, r, t, h, h, i);
    lemma_dft_sum_periodic(x, w, r + t, t, h, h, i);
    let o2 = odd_sum(x, w, r, t, h, i + h);
    assert(t * (i + h) == t * i + t * h) by (nonlinear_arith);
    assert(t * h >= 0) by (nonlinear_arith)
        requires
            t >= 0,
    ;
    assert((t * (i + h)) as nat == (t * i) as nat + (t * h) as nat);
    lemma_zpow_adds(w, (t * i) as nat, (t * h) as nat);
    let tw2 = zpow(w, (t * (i + h)) as nat);
    assert(tw2 == (tw * 256) % 257);
    assert(o2 % 257 == (tw2 * d) % 257);
    lemma_mul_mod_noop_right(d, tw * 256, 257);
    assert(tw2 * d == d * tw2) by (nonlinear_arith);
    assert(d * (tw * 256) == d * tw * 257 - d * tw) by (nonlinear_arith);
    assert((d * tw * 257 - d * tw) % 257 == (-(d * tw)) % 257) by {
        vstd::arithmetic::div_mod::lemma_mod_multiples_vanish(d * tw, -(d * tw), 257);
    }
    lemma_add_mod_noop(e, o2, 257);
    lemma_add_mod_noop(e, -(d * tw), 257);
    lemma_sub_mod_noop(e % 257, (d % 257) * tw, 257);
    lemma_mul_mod_noop_right(tw, d, 257);
    vstd::arithmetic::div_mod::lemma_mul_mod_noop_left(d, tw, 257);
    vstd::arithmetic::div_mod::lemma_mod_twice(e, 257);
    lemma_sub_mod_noop(e, d * tw, 257);
}

/// One stage of the in-place transform: positions `p` and `p + 2^s` of chunk `q` at stage
/// `s + 1`, from the same positions at stage `s`, with twiddle `w^(i 2^(l-s-1))`.
pub proof fn lemma_stage(x: Seq<int>, w: int, l: nat, s: nat, q: int, i: int)
    requires
        s < l,
        canonical(w),
        zpow(w, pow2((l - 1) as nat)) == 256,
        0 <= q,
        0 <= i < pow2(s),
    ensures
        ({
            let h = pow2(s) as int;
            let p = q * (2 * h) + i;
            let tw = zpow(w, (i * pow2((l - s - 1) as nat)) as nat);
            &&& level(x, w, l, s + 1, p) == fadd(
                level(x, w, l, s, p),
                fmul(level(x, w, l, s, p + h), tw),
            )
            &&& level(x, w, l, s + 1, p + h) == fsub(
                level(x, w, l, s, p),
                fmul(level(x, w, l, s, p + h), tw),
            )
        }),
{
    let h = pow2(s) as int;
    let t = pow2((l - s - 1) as nat) as int;
    let p = q * (2 * h) + i;
    lemma_pow2_pos(s);
    lemma_pow2_pos((l - s - 1) as nat);
    lemma_pow2_unfold(s + 1);
    lemma_pow2_unfold((l - s) as nat);
    assert(((l - s) - 1) as nat == (l - s - 1) as nat);
    assert(pow2(s + 1) == 2 * h);
    assert(pow2((l - s) as nat) == 2 * t);
    lemma_fundamental_div_mod_converse(p, 2 * h, q, i);
    lemma_fundamental_div_mod_converse(p + h, 2 * h, q, i + h);
    assert(p == (2 * q) * h + i) by (nonlinear_arith)
        requires
            p == q * (2 * h) + i,
    ;
    lemma_fundamental_div_mod_converse(p, h, 2 * q, i);
    assert(p + h == (2 * q + 1) * h + i) by (nonlinear_arith)
        requires
            p == (2 * q) * h + i,
    ;
    lemma_fundamental_div_mod_converse(p + h, h, 2 * q + 1, i);
    lemma_rev_even_odd(q, (l - s - 1) as nat);
    assert((l - s - 1) as nat + 1 == (l - s) as nat);
    assert((l - (s + 1)) as nat == (l - s - 1) as nat);
    let r = rev(q, (l - s - 1) as nat);
    lemma_pow2_adds((l - s - 1) as nat, s);
    assert((l - s - 1) as nat + s == (l - 1) as nat);
    assert(t * h == pow2((l - 1) as nat));
    assert(2 * t * h == t * h + t * h) by (nonlinear_arith);
    assert(t * h >= 0) by (nonlinear_arith)
        requires
            t > 0,
            h > 0,
    ;
    lemma_zpow_adds(w, (t * h) as nat, (t * h) as nat);
    assert((2 * t * h) as nat == (t * h) as nat + (t * h) as nat);
    assert(zpow(w, (2 * t * h) as nat) == 1);
    lemma_butterfly_sums(x, w, r, t, h as nat, i);
    assert((2 * h) as nat == pow2(s + 1));
}

/// After the last stage the array holds the full transform of `x`.
pub proof fn lemma_last_stage(x: Seq<int>, w: int, l: nat, p: int)
    requires
        0 <= p < pow2(l),
    ensures
        level(x, w, l, l, p) == dft_sum(x, w, 0, 1, pow2(l), p) % 257,
{
    lemma2_to64();
    lemma_pow2_pos(l);
    lemma_small_mod(p as nat, pow2(l));
    lemma_fundamental_div_mod_converse(p, pow2(l) as int, 0, p);
    assert((l - l) as nat == 0);
}

/// Before the first stage, position `p` holds `x[rev(p)]`.
pub proof fn lemma_first_stage(x: Seq<int>, w: int, l: nat, p: int)
    requires
        canonical(x[rev(p, l)]),
    ensures
        level(x, w, l, 0, p) == x[rev(p, l)],
{
    lemma2_to64();
    assert(p / 1 == p);
    assert(p % 1 == 0);
    let t = pow2(l) as int;
    reveal_with_fuel(dft_sum, 2);
    assert(dft_sum(x, w, rev(p, l), t, 1, 0) == x[rev(p, l) + t * 0] * zpow(w, (t * 0 * 0) as nat));
    assert(t * 0 == 0);
    assert(zpow(w, 0) == 1);
    lemma_small_mod(x[rev(p, l)] as nat, 257);
}

} // verus!
