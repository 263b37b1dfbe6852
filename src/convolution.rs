//! Evaluation at the roots of alpha^64 + 1: the Fourier coefficients are such values, so
//! the transform turns ring products into coefficient-wise ones, and interpolation undoes it.
use crate::arith::{
    canonical, fadd, finv, fmul, fneg, lemma_fmul_assoc, lemma_fmul_comm,
    lemma_minus_one_odd_power, lemma_omega_order, lemma_one_pow,
    lemma_psi_powers, lemma_roots_of_order_64, lemma_zpow_adds, lemma_zpow_mul,
    lemma_zpow_product, lemma_zpow_range, zpow,
};
use crate::fermat::lemma_mul_finv;
use crate::polynomial::{
    column_sum, dot_upto, evaluate, fourier, hadamard, interpolate, is_poly,
    lemma_times_alpha_pow_is_poly, normalisation, point_powers, poly_add, ring_mul, times_alpha,
    times_alpha_pow, toeplitz, twist,
};
use crate::sums::{
    isum, lemma_isum_add, lemma_isum_congruent, lemma_isum_exchange, lemma_isum_ext,
    lemma_isum_peel_first, lemma_isum_scale, lemma_isum_single,
};
use crate::transform::{dft, dft_sum, lemma_zpow_multiple_one};
use vstd::arithmetic::div_mod::{
    lemma_add_mod_noop, lemma_fundamental_div_mod, lemma_mod_multiples_vanish, lemma_mod_twice,
    lemma_mul_mod_noop_left, lemma_mul_mod_noop_right, lemma_small_mod,
};
use vstd::prelude::*;

verus! {

/// `sum_{j < 64} a[j] z^j`, as an integer.
pub open spec fn eval_sum(a: Seq<int>, z: int) -> int {
    isum(|j: int| a[j] * zpow(z, j as nat), 64)
}

pub proof fn lemma_dot_upto_isum(a: Seq<int>, b: Seq<int>, n: nat)
    ensures
        dot_upto(a, b, n) == isum(|j: int| a[j] * b[j], n) % 257,
    decreases n,
{
    if n > 0 {
        let m = (n - 1) as nat;
        lemma_dot_upto_isum(a, b, m);
        let s = isum(|j: int| a[j] * b[j], m);
        lemma_add_mod_noop(s, a[m as int] * b[m as int], 257);
        lemma_mod_twice(a[m as int] * b[m as int], 257);
    }
}

pub proof fn lemma_column_sum_isum(m: Seq<Seq<int>>, v: Seq<int>, row: int, n: nat)
    ensures
        column_sum(m, v, row, n) == isum(|c: int| m[c][row] * v[c], n) % 257,
    decreases n,
{
    if n > 0 {
        let k = (n - 1) as nat;
        lemma_column_sum_isum(m, v, row, k);
        let s = isum(|c: int| m[c][row] * v[c], k);
        lemma_add_mod_noop(s, m[k as int][row] * v[k as int], 257);
        lemma_mod_twice(m[k as int][row] * v[k as int], 257);
    }
}

pub proof fn lemma_dft_sum_isum(x: Seq<int>, w: int, n: nat, k: int)
    ensures
        dft_sum(x, w, 0, 1, n, k) == isum(|j: int| x[j] * zpow(w, (j * k) as nat), n),
    decreases n,
{
    if n > 0 {
        lemma_dft_sum_isum(x, w, (n - 1) as nat, k);
        assert(0 + 1 * (n - 1) == n - 1);
        assert(1 * (n - 1) * k == (n - 1) * k);
    }
}

pub proof fn lemma_evaluate_sum(a: Seq<int>, z: int)
    ensures
        evaluate(a, z) == eval_sum(a, z) % 257,
{
    lemma_dot_upto_isum(a, point_powers(z), 64);
    lemma_isum_ext(
        |j: int| a[j] * point_powers(z)[j],
        |j: int| a[j] * zpow(z, j as nat),
        64,
    );
}

/// Evaluating `alpha * a` at a root `z` of `alpha^64 + 1` multiplies the value by `z`.
pub proof fn lemma_evaluate_times_alpha(a: Seq<int>, z: int)
    requires
        is_poly(a),
        canonical(z),
        zpow(z, 64) == 256,
    ensures
        evaluate(times_alpha(a), z) == fmul(z, evaluate(a, z)),
{
    let t = times_alpha(a);
    let g = |j: int| t[j] * zpow(z, j as nat);
    let f = |j: int| a[j] * zpow(z, (j + 1) as nat);
    let e = |j: int| a[j] * zpow(z, j as nat);
    lemma_isum_peel_first(g, 63);
    lemma_isum_ext(|j: int| g(j + 1), f, 63);
    assert(isum(f, 64) == isum(f, 63) + f(63));
    assert(zpow(z, 0) == 1);
    assert(g(0) == fneg(a[63]));
    assert(isum(g, 64) == fneg(a[63]) + isum(f, 64) - a[63] * 256);
    // fneg(a63) - 256 a63 = -a63 - 256 a63 (mod 257) = -257 a63
    assert((isum(g, 64)) % 257 == isum(f, 64) % 257) by {
        let s = isum(f, 64);
        lemma_add_mod_noop(-a[63], s - a[63] * 256, 257);
        lemma_add_mod_noop(fneg(a[63]), s - a[63] * 256, 257);
        lemma_mod_twice(-a[63], 257);
        assert(-a[63] + (s - a[63] * 256) == s + 257 * (-a[63]));
        lemma_mod_multiples_vanish(-a[63], s, 257);
    }
    // z * sum_j a[j] z^j = sum_j a[j] z^(j+1)  (mod 257)
    lemma_isum_scale(e, z, 64);
    assert forall|j: int| 0 <= j < 64 implies #[trigger] (z * e(j)) % 257 == f(j) % 257 by {
        let p = zpow(z, j as nat);
        assert(zpow(z, (j + 1) as nat) == fmul(z, p));
        lemma_mul_mod_noop_right(a[j], z * p, 257);
        assert(z * (a[j] * p) == a[j] * (z * p)) by (nonlinear_arith);
    }
    lemma_isum_congruent(|j: int| z * e(j), f, 64);
    lemma_evaluate_sum(a, z);
    lemma_evaluate_sum(t, z);
    lemma_mul_mod_noop_right(z, isum(e, 64), 257);
}

pub proof fn lemma_evaluate_range(a: Seq<int>, z: int)
    ensures
        canonical(evaluate(a, z)),
{
    lemma_evaluate_sum(a, z);
}

/// Evaluating `alpha^c * a` at such a root multiplies the value by `z^c`.
pub proof fn lemma_evaluate_times_alpha_pow(a: Seq<int>, z: int, c: nat)
    requires
        is_poly(a),
        canonical(z),
        zpow(z, 64) == 256,
    ensures
        evaluate(times_alpha_pow(a, c), z) == fmul(zpow(z, c), evaluate(a, z)),
    decreases c,
{
    lemma_evaluate_range(a, z);
    if c == 0 {
        lemma_small_mod(evaluate(a, z) as nat, 257);
    } else {
        let k = (c - 1) as nat;
        lemma_evaluate_times_alpha_pow(a, z, k);
        lemma_times_alpha_pow_is_poly(a, k);
        lemma_evaluate_times_alpha(times_alpha_pow(a, k), z);
        lemma_fmul_assoc(z, zpow(z, k), evaluate(a, z));
    }
}

/// Evaluation at a root `z` of `alpha^64 + 1` turns the ring product into a product in
/// the field.
pub proof fn lemma_evaluate_ring_mul(a: Seq<int>, b: Seq<int>, z: int)
    requires
        is_poly(a),
        is_poly(b),
        canonical(z),
        zpow(z, 64) == 256,
    ensures
        evaluate(ring_mul(a, b), z) == fmul(evaluate(a, z), evaluate(b, z)),
{
    let t = toeplitz(a);
    let r = ring_mul(a, b);
    let ea = evaluate(a, z);
    let h = |row: int, c: int| t[c][row] * b[c] * zpow(z, row as nat);
    // r[row] z^row = sum_c t[c][row] b[c] z^row  (mod 257)
    assert forall|row: int| 0 <= row < 64 implies #[trigger] (r[row] * zpow(z, row as nat)) % 257
        == isum(|c: int| h(row, c), 64) % 257 by {
        let zr = zpow(z, row as nat);
        let inner = |c: int| t[c][row] * b[c];
        lemma_column_sum_isum(t, b, row, 64);
        assert(r[row] == isum(inner, 64) % 257);
        lemma_mul_mod_noop_left(isum(inner, 64), zr, 257);
        lemma_isum_scale(inner, zr, 64);
        assert forall|c: int| 0 <= c < 64 implies #[trigger] h(row, c) == zr * inner(c) by {
            assert(t[c][row] * b[c] * zr == zr * (t[c][row] * b[c])) by (nonlinear_arith);
        }
        lemma_isum_ext(|c: int| zr * inner(c), |c: int| h(row, c), 64);
        assert(isum(inner, 64) * zr == zr * isum(inner, 64)) by (nonlinear_arith);
    }
    lemma_isum_congruent(
        |row: int| r[row] * zpow(z, row as nat),
        |row: int| isum(|c: int| h(row, c), 64),
        64,
    );
    lemma_isum_exchange(h, 64, 64);
    // sum_row t[c][row] b[c] z^row = b[c] * eval_sum(t[c]) = b[c] z^c ea  (mod 257)
    assert forall|c: int| 0 <= c < 64 implies isum(|row: int| h(row, c), 64) % 257 == (ea * (
    #[trigger] b[c] * zpow(z, c as nat))) % 257 by {
        let tc = t[c];
        let e = |row: int| tc[row] * zpow(z, row as nat);
        lemma_isum_scale(e, b[c], 64);
        assert forall|row: int| 0 <= row < 64 implies #[trigger] h(row, c) == b[c] * e(row) by {
            assert(tc[row] * b[c] * zpow(z, row as nat) == b[c] * (tc[row] * zpow(z, row as nat)))
                by (nonlinear_arith);
        }
        lemma_isum_ext(|row: int| h(row, c), |row: int| b[c] * e(row), 64);
        lemma_evaluate_sum(tc, z);
        lemma_times_alpha_pow_is_poly(a, c as nat);
        lemma_evaluate_times_alpha_pow(a, z, c as nat);
        let zc = zpow(z, c as nat);
        // b[c] * s = b[c] * (s % 257) = b[c] * fmul(zc, ea)  (mod 257)
        lemma_mul_mod_noop_right(b[c], isum(e, 64), 257);
        lemma_mul_mod_noop_right(b[c], zc * ea, 257);
        assert(b[c] * (zc * ea) == ea * (b[c] * zc)) by (nonlinear_arith);
    }
    let g = |c: int| b[c] * zpow(z, c as nat);
    lemma_isum_congruent(
        |c: int| isum(|row: int| h(row, c), 64),
        |c: int| ea * g(c),
        64,
    );
    lemma_isum_scale(g, ea, 64);
    lemma_evaluate_sum(r, z);
    lemma_evaluate_sum(b, z);
    lemma_mul_mod_noop_right(ea, eval_sum(b, z), 257);
}

/// The odd power `9^(2k+1)`, the `k`-th root of `alpha^64 + 1` that the transform evaluates at.
pub open spec fn fourier_point(k: int) -> int {
    zpow(9, (2 * k + 1) as nat)
}

/// Every such point is a root of `alpha^64 + 1`.
pub proof fn lemma_fourier_point_root(k: int)
    requires
        0 <= k,
    ensures
        canonical(fourier_point(k)),
        zpow(fourier_point(k), 64) == 256,
{
    lemma_zpow_range(9, (2 * k + 1) as nat);
    lemma_zpow_mul(9, (2 * k + 1) as nat, 64);
    lemma_zpow_mul(9, 64, (2 * k + 1) as nat);
    assert((2 * k + 1) as nat * 64 == 64 * (2 * k + 1) as nat);
    lemma_psi_powers();
    lemma_minus_one_odd_power(k as nat);
}

/// The Fourier coefficients are the values at the odd powers of 9.
pub proof fn lemma_fourier_is_evaluation(a: Seq<int>, k: int)
    requires
        is_poly(a),
        0 <= k < 64,
    ensures
        fourier(a)[k] == evaluate(a, fourier_point(k)),
{
    let tw = twist(a);
    let z = fourier_point(k);
    lemma_dft_sum_isum(tw, 81, 64, k);
    lemma_evaluate_sum(a, z);
    lemma_psi_powers();
    assert forall|j: int| 0 <= j < 64 implies #[trigger] (tw[j] * zpow(81, (j * k) as nat)) % 257
        == (a[j] * zpow(z, j as nat)) % 257 by {
        assert(j * k >= 0) by (nonlinear_arith)
            requires
                j >= 0,
                k >= 0,
        ;
        let p = zpow(9, j as nat);
        let q = zpow(9, (2 * (j * k)) as nat);
        lemma_zpow_mul(9, 2, (j * k) as nat);
        assert(2 * ((j * k) as nat) == (2 * (j * k)) as nat);
        lemma_zpow_adds(9, j as nat, (2 * (j * k)) as nat);
        lemma_zpow_mul(9, (2 * k + 1) as nat, j as nat);
        assert((2 * k + 1) as nat * (j as nat) == (j + 2 * (j * k)) as nat) by (nonlinear_arith)
            requires
                j >= 0,
                k >= 0,
        ;
        // tw[j] * q = ((a[j] p) % 257) q = a[j] (p q) = a[j] ((p q) % 257)  (mod 257)
        lemma_mul_mod_noop_left(a[j] * p, q, 257);
        lemma_mul_mod_noop_right(a[j], p * q, 257);
        assert(a[j] * p * q == a[j] * (p * q)) by (nonlinear_arith);
    }
    lemma_isum_congruent(
        |j: int| tw[j] * zpow(81, (j * k) as nat),
        |j: int| a[j] * zpow(z, j as nat),
        64,
    );
}

/// The transform turns the ring product into the coefficient-wise product.
pub proof fn lemma_fourier_ring_mul(a: Seq<int>, b: Seq<int>)
    requires
        is_poly(a),
        is_poly(b),
    ensures
        fourier(ring_mul(a, b)) == hadamard(fourier(a), fourier(b)),
{
    let r = ring_mul(a, b);
    assert forall|k: int| 0 <= k < 64 implies #[trigger] fourier(r)[k] == hadamard(
        fourier(a),
        fourier(b),
    )[k] by {
        lemma_fourier_point_root(k);
        lemma_ring_mul_is_poly(a, b);
        lemma_fourier_is_evaluation(r, k);
        lemma_fourier_is_evaluation(a, k);
        lemma_fourier_is_evaluation(b, k);
        lemma_evaluate_ring_mul(a, b, fourier_point(k));
    }
    assert(fourier(r) =~= hadamard(fourier(a), fourier(b)));
}

pub proof fn lemma_ring_mul_is_poly(a: Seq<int>, b: Seq<int>)
    ensures
        is_poly(ring_mul(a, b)),
{
}

/// `(u - 1)(1 + u + ... + u^(n-1)) = u^n - 1`, modulo 257.
proof fn lemma_geometric(u: int, n: nat)
    requires
        canonical(u),
    ensures
        ((u - 1) * isum(|k: int| zpow(u, k as nat), n)) % 257 == (zpow(u, n) - 1) % 257,
    decreases n,
{
    if n > 0 {
        let m = (n - 1) as nat;
        lemma_geometric(u, m);
        let s = isum(|k: int| zpow(u, k as nat), m);
        let p = zpow(u, m);
        assert((u - 1) * (s + p) == (u - 1) * s + u * p - p) by (nonlinear_arith);
        lemma_add_mod_noop((u - 1) * s, u * p - p, 257);
        lemma_add_mod_noop(p - 1, u * p - p, 257);
        assert(zpow(u, n) == (u * p) % 257);
        vstd::arithmetic::div_mod::lemma_sub_mod_noop(u * p, 1, 257);
        assert((p - 1) + (u * p - p) == u * p - 1);
        lemma_mod_twice(u * p, 257);
        vstd::arithmetic::div_mod::lemma_sub_mod_noop((u * p) % 257, 1, 257);
    }
}

/// `sum_{k < 64} 81^(k e)` is 64 when 64 divides `e`, and 0 otherwise (modulo 257).
pub proof fn lemma_orthogonality(e: nat)
    ensures
        isum(|k: int| zpow(81, (k * e) as nat), 64) % 257 == (if e % 64 == 0 {
            64int
        } else {
            0int
        }),
{
    lemma_roots_of_order_64();
    let u = zpow(81, e);
    lemma_zpow_range(81, e);
    // 81^64 = 1
    lemma_zpow_adds(81, 32, 32);
    assert(zpow(81, 64) == 1);
    assert forall|k: int| 0 <= k < 64 implies #[trigger] zpow(81, (k * e) as nat) == zpow(
        u,
        k as nat,
    ) by {
        lemma_zpow_mul(81, e, k as nat);
        assert(e * (k as nat) == (k * e) as nat) by (nonlinear_arith)
            requires
                k >= 0,
        ;
    }
    lemma_isum_ext(|k: int| zpow(81, (k * e) as nat), |k: int| zpow(u, k as nat), 64);
    let q = e / 64;
    let r = e % 64;
    lemma_fundamental_div_mod(e as int, 64);
    lemma_zpow_multiple_one(81, 64, q as nat);
    assert(e == q * 64 + r);
    lemma_zpow_adds(81, (q * 64) as nat, r as nat);
    lemma_zpow_range(81, r as nat);
    lemma_small_mod(zpow(81, r as nat) as nat, 257);
    assert(u == zpow(81, r as nat));
    let s = isum(|k: int| zpow(u, k as nat), 64);
    if r == 0 {
        assert(u == 1);
        assert forall|k: int| 0 <= k < 64 implies #[trigger] zpow(u, k as nat) == 1 by {
            lemma_one_pow(k as nat);
        }
        lemma_isum_ext(|k: int| zpow(u, k as nat), |k: int| 1int, 64);
        lemma_isum_count(64);
        assert(s == 64);
    } else {
        lemma_omega_order(r as int);
        lemma_geometric(u, 64);
        lemma_zpow_mul(81, e, 64);
        lemma_zpow_mul(81, 64, e);
        assert(e * 64 == 64 * e) by (nonlinear_arith);
        lemma_one_pow(e);
        assert(zpow(u, 64) == 1);
        // (u - 1) s = 0 and u - 1 is invertible
        let d = (u - 1) % 257;
        assert(d != 0);
        lemma_mul_mod_noop_left(u - 1, s, 257);
        assert((d * s) % 257 == 0);
        lemma_mul_finv(d);
        let v = finv(d);
        lemma_mul_mod_noop_right(v, d * s, 257);
        assert(v * (d * s) == (v * d) * s) by (nonlinear_arith);
        lemma_mul_mod_noop_left(v * d, s, 257);
        lemma_fmul_comm(d, v);
        assert((v * d) % 257 == 1);
        assert((v * (d * s)) % 257 == 0);
        assert(s % 257 == 0);
    }
}

proof fn lemma_isum_count(n: nat)
    ensures
        isum(|k: int| 1int, n) == n,
    decreases n,
{
    if n > 0 {
        lemma_isum_count((n - 1) as nat);
    }
}

/// `9^((2k+1) j) * 165^(k i) = 9^j * 81^(k (j + 63 i))`, modulo 257.
proof fn lemma_inverse_term(k: int, j: int, i: int)
    requires
        0 <= k < 64,
        0 <= j < 64,
        0 <= i < 64,
    ensures
        (zpow(fourier_point(k), j as nat) * zpow(165, (k * i) as nat)) % 257 == (zpow(9, j as nat)
            * zpow(81, (k * (j + 63 * i)) as nat)) % 257,
{
    lemma_psi_powers();
    lemma_omega_order(1);
    let kj = (k * j) as nat;
    let ki = (k * i) as nat;
    assert(k * j >= 0 && k * i >= 0 && k * (j + 63 * i) >= 0) by (nonlinear_arith)
        requires
            0 <= k,
            0 <= j,
            0 <= i,
    ;
    lemma_zpow_mul(9, (2 * k + 1) as nat, j as nat);
    assert((2 * k + 1) as nat * (j as nat) == j as nat + 2 * kj) by (nonlinear_arith)
        requires
            kj == k * j,
            k >= 0,
            j >= 0,
    ;
    lemma_zpow_adds(9, j as nat, 2 * kj);
    lemma_zpow_mul(9, 2, kj);
    lemma_zpow_mul(81, 63, ki);
    lemma_zpow_adds(81, kj, 63 * ki);
    assert(kj + 63 * ki == (k * (j + 63 * i)) as nat) by (nonlinear_arith)
        requires
            kj == k * j,
            ki == k * i,
    ;
    let x = zpow(9, j as nat);
    let y = zpow(81, kj);
    let c = zpow(81, 63 * ki);
    // ((x y) % 257) c = x ((y c) % 257)  (mod 257)
    lemma_mul_mod_noop_left(x * y, c, 257);
    lemma_mul_mod_noop_right(x, y * c, 257);
    assert(x * y * c == x * (y * c)) by (nonlinear_arith);
}

/// `j + 63 i` is a multiple of 64 exactly when `j = i`.
proof fn lemma_exponent_class(j: int, i: int)
    requires
        0 <= j < 64,
        0 <= i < 64,
    ensures
        ((j + 63 * i) % 64 == 0) == (j == i),
{
    if j >= i {
        vstd::arithmetic::div_mod::lemma_fundamental_div_mod_converse(j + 63 * i, 64, i, j - i);
    } else {
        vstd::arithmetic::div_mod::lemma_fundamental_div_mod_converse(
            j + 63 * i,
            64,
            i - 1,
            j - i + 64,
        );
    }
}

/// The transform with root 165 of the Fourier coefficients gives back `64 * 9^i * a[i]`.
proof fn lemma_inverse_transform_coefficient(a: Seq<int>, i: int)
    requires
        is_poly(a),
        0 <= i < 64,
    ensures
        dft(fourier(a), 165)[i] == fmul(a[i], fmul(zpow(9, i as nat), 64)),
{
    let y = fourier(a);
    let c = |k: int| zpow(165, (k * i) as nat);
    let h = |k: int, j: int| a[j] * zpow(fourier_point(k), j as nat) * zpow(165, (k * i) as nat);
    lemma_dft_sum_isum(y, 165, 64, i);
    // y[k] c(k) = sum_j h(k, j)  (mod 257)
    assert forall|k: int| 0 <= k < 64 implies (#[trigger] y[k] * zpow(165, (k * i) as nat)) % 257
        == isum(|j: int| h(k, j), 64) % 257 by {
        let z = fourier_point(k);
        let e = |j: int| a[j] * zpow(z, j as nat);
        lemma_fourier_is_evaluation(a, k);
        lemma_evaluate_sum(a, z);
        lemma_mul_mod_noop_left(isum(e, 64), c(k), 257);
        lemma_isum_scale(e, c(k), 64);
        assert forall|j: int| 0 <= j < 64 implies #[trigger] h(k, j) == c(k) * e(j) by {
            assert(a[j] * zpow(z, j as nat) * c(k) == c(k) * (a[j] * zpow(z, j as nat)))
                by (nonlinear_arith);
        }
        lemma_isum_ext(|j: int| c(k) * e(j), |j: int| h(k, j), 64);
        assert(isum(e, 64) * c(k) == c(k) * isum(e, 64)) by (nonlinear_arith);
    }
    lemma_isum_congruent(|k: int| y[k] * zpow(165, (k * i) as nat), |k: int| isum(|j: int| h(k, j), 64), 64);
    lemma_isum_exchange(h, 64, 64);
    let t = zpow(9, i as nat);
    let g = |j: int| if j == i { a[i] * t * 64 } else { 0int };
    assert forall|j: int| 0 <= j < 64 implies isum(|k: int| h(k, j), 64) % 257 == #[trigger] g(j)
        % 257 by {
        let e = j + 63 * i;
        assert(e >= 0);
        let x = zpow(9, j as nat);
        let o = |k: int| zpow(81, (k * (e as nat)) as nat);
        let inner = |k: int| zpow(fourier_point(k), j as nat) * zpow(165, (k * i) as nat);
        lemma_isum_scale(inner, a[j], 64);
        assert forall|k: int| 0 <= k < 64 implies #[trigger] h(k, j) == a[j] * inner(k) by {
            assert(a[j] * zpow(fourier_point(k), j as nat) * zpow(165, (k * i) as nat) == a[j] * (
            zpow(fourier_point(k), j as nat) * zpow(165, (k * i) as nat))) by (nonlinear_arith);
        }
        lemma_isum_ext(|k: int| h(k, j), |k: int| a[j] * inner(k), 64);
        assert forall|k: int| 0 <= k < 64 implies #[trigger] inner(k) % 257 == (x * o(k)) % 257 by {
            lemma_inverse_term(k, j, i);
        }
        lemma_isum_congruent(inner, |k: int| x * o(k), 64);
        lemma_isum_scale(o, x, 64);
        lemma_orthogonality(e as nat);
        lemma_exponent_class(j, i);
        let so = isum(o, 64);
        let si = isum(inner, 64);
        // a[j] si = a[j] x so = a[j] x (so % 257)  (mod 257)
        lemma_mul_mod_noop_right(a[j], si, 257);
        lemma_mul_mod_noop_right(a[j], x * so, 257);
        lemma_mul_mod_noop_right(a[j] * x, so, 257);
        assert(a[j] * (x * so) == a[j] * x * so) by (nonlinear_arith);
        if j == i {
            assert(so % 257 == 64);
        } else {
            assert(so % 257 == 0);
            assert(a[j] * x * 0 == 0);
        }
    }
    lemma_isum_congruent(|j: int| isum(|k: int| h(k, j), 64), g, 64);
    lemma_isum_single(g, 64, i);
    lemma_mul_mod_noop_right(a[i], t * 64, 257);
    assert(a[i] * (t * 64) == a[i] * t * 64) by (nonlinear_arith);
}

/// Interpolating the Fourier coefficients of a polynomial gives the polynomial back.
pub proof fn lemma_interpolate_fourier(a: Seq<int>)
    requires
        is_poly(a),
    ensures
        interpolate(fourier(a)) == a,
{
    assert forall|i: int| 0 <= i < 64 implies #[trigger] interpolate(fourier(a))[i] == a[i] by {
        lemma_inverse_transform_coefficient(a, i);
        let t = zpow(9, i as nat);
        let v = zpow(200, i as nat);
        lemma_zpow_range(9, i as nat);
        lemma_zpow_range(200, i as nat);
        let d = dft(fourier(a), 165)[i];
        assert(normalisation()[i] == fmul(v, 253));
        assert(interpolate(fourier(a))[i] == fmul(d, fmul(v, 253)));
        assert(d == fmul(a[i], fmul(t, 64)));
        lemma_fmul_assoc(a[i], fmul(t, 64), fmul(v, 253));
        lemma_fmul_assoc(t, 64, fmul(v, 253));
        lemma_fmul_assoc(64, v, 253);
        lemma_fmul_comm(64, v);
        lemma_fmul_assoc(v, 64, 253);
        assert(fmul(64, 253) == 1);
        lemma_small_mod(v as nat, 257);
        assert(fmul(v, 1) == v);
        assert(fmul(64, fmul(v, 253)) == v);
        lemma_zpow_product(9, 200, i as nat);
        assert(fmul(9, 200) == 1);
        lemma_one_pow(i as nat);
        assert(fmul(t, v) == 1);
        assert(fmul(fmul(t, 64), fmul(v, 253)) == 1);
        assert(canonical(a[i]));
        lemma_small_mod(a[i] as nat, 257);
        assert(fmul(a[i], 1) == a[i]);
    }
    assert(interpolate(fourier(a)) =~= a);
}

/// The product through the transform is the ring product.
pub proof fn lemma_convolution(a: Seq<int>, b: Seq<int>)
    requires
        is_poly(a),
        is_poly(b),
    ensures
        interpolate(hadamard(fourier(a), fourier(b))) == ring_mul(a, b),
{
    lemma_fourier_ring_mul(a, b);
    lemma_ring_mul_is_poly(a, b);
    lemma_interpolate_fourier(ring_mul(a, b));
}

/// Evaluation is additive.
pub proof fn lemma_evaluate_add(a: Seq<int>, b: Seq<int>, z: int)
    ensures
        evaluate(poly_add(a, b), z) == fadd(evaluate(a, z), evaluate(b, z)),
{
    let s = poly_add(a, b);
    let fa = |j: int| a[j] * zpow(z, j as nat);
    let fb = |j: int| b[j] * zpow(z, j as nat);
    assert forall|j: int| 0 <= j < 64 implies #[trigger] (s[j] * zpow(z, j as nat)) % 257 == (fa(j)
        + fb(j)) % 257 by {
        lemma_mul_mod_noop_left(a[j] + b[j], zpow(z, j as nat), 257);
        let w = zpow(z, j as nat);
        assert((a[j] + b[j]) * w == a[j] * w + b[j] * w) by (nonlinear_arith);
    }
    lemma_isum_congruent(|j: int| s[j] * zpow(z, j as nat), |j: int| fa(j) + fb(j), 64);
    lemma_isum_add(fa, fb, |j: int| fa(j) + fb(j), 64);
    lemma_evaluate_sum(s, z);
    lemma_evaluate_sum(a, z);
    lemma_evaluate_sum(b, z);
    lemma_add_mod_noop(isum(fa, 64), isum(fb, 64), 257);
}

/// The transform is additive.
pub proof fn lemma_fourier_add(a: Seq<int>, b: Seq<int>)
    requires
        is_poly(a),
        is_poly(b),
    ensures
        fourier(poly_add(a, b)) == poly_add(fourier(a), fourier(b)),
{
    assert forall|k: int| 0 <= k < 64 implies #[trigger] fourier(poly_add(a, b))[k] == poly_add(
        fourier(a),
        fourier(b),
    )[k] by {
        lemma_fourier_is_evaluation(a, k);
        lemma_fourier_is_evaluation(b, k);
        lemma_fourier_is_evaluation(poly_add(a, b), k);
        lemma_evaluate_add(a, b, fourier_point(k));
    }
    assert(fourier(poly_add(a, b)) =~= poly_add(fourier(a), fourier(b)));
}

} // verus!
