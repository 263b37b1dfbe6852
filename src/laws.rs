//! Laws of the field, the ring and the compression function.
use crate::arith::{
    canonical, fadd, finv, fmul, fneg, lemma_fadd_assoc, zpow,
};
use crate::convolution::lemma_column_sum_isum;
use crate::fermat::{lemma_fermat, lemma_mul_finv};
use crate::hash::{
    block_digest, block_polys, input_bit, input_poly, lemma_multiplier_nonzero, multiplier,
    naive_sum, signed_block_digest, signed_block_polys, signed_input_poly,
};
use crate::polynomial::{
    alpha_poly, is_poly, one_poly, poly_add, poly_neg, ring_mul, times_alpha, times_alpha_pow,
    toeplitz, zero_poly,
};
use crate::sums::{isum, lemma_isum_single, lemma_isum_zero};
use vstd::arithmetic::div_mod::{lemma_add_mod_noop, lemma_mod_twice, lemma_small_mod};
use vstd::prelude::*;

verus! {

/// In Z_257: `a + (-a) = 0`; for `a != 0`, `a * a^(-1) = 1` and `a^256 = 1`.
pub proof fn lemma_field_laws(a: int)
    requires
        canonical(a),
    ensures
        fadd(a, fneg(a)) == 0,
        a != 0 ==> fmul(a, finv(a)) == 1,
        a != 0 ==> zpow(a, 256) == 1,
{
    if a != 0 {
        lemma_mul_finv(a);
        lemma_fermat(a);
    }
}

/// `p + (-p) = 0` in the ring.
pub proof fn lemma_add_neg(p: Seq<int>)
    requires
        is_poly(p),
    ensures
        poly_add(p, poly_neg(p)) == zero_poly(),
{
    assert(poly_add(p, poly_neg(p)) =~= zero_poly());
}

/// The `row` coefficient of `p * q` when `q` has the single coefficient 1 at `c0`.
proof fn lemma_ring_mul_monomial(p: Seq<int>, q: Seq<int>, c0: int, row: int)
    requires
        is_poly(p),
        0 <= c0 < 64,
        0 <= row < 64,
        q[c0] == 1,
        forall|c: int| 0 <= c < 64 && c != c0 ==> #[trigger] q[c] == 0,
    ensures
        ring_mul(p, q)[row] == times_alpha_pow(p, c0 as nat)[row],
{
    let t = toeplitz(p);
    lemma_column_sum_isum(t, q, row, 64);
    let f = |c: int| t[c][row] * q[c];
    assert forall|c: int| 0 <= c < 64 && c != c0 implies #[trigger] f(c) == 0 by {
        assert(q[c] == 0);
    }
    lemma_isum_single(f, 64, c0);
    crate::polynomial::lemma_times_alpha_pow_is_poly(p, c0 as nat);
    assert(canonical(times_alpha_pow(p, c0 as nat)[row]));
    lemma_small_mod(times_alpha_pow(p, c0 as nat)[row] as nat, 257);
}

/// `p * 1 = p`.
pub proof fn lemma_ring_mul_one(p: Seq<int>)
    requires
        is_poly(p),
    ensures
        ring_mul(p, one_poly()) == p,
{
    assert forall|row: int| 0 <= row < 64 implies #[trigger] ring_mul(p, one_poly())[row] == p[row] by {
        lemma_ring_mul_monomial(p, one_poly(), 0, row);
    }
    assert(ring_mul(p, one_poly()) =~= p);
}

/// `p * alpha` is `p` with its coefficients moved up one place and the top one negated.
pub proof fn lemma_ring_mul_alpha(p: Seq<int>)
    requires
        is_poly(p),
    ensures
        ring_mul(p, alpha_poly()) == times_alpha(p),
{
    reveal_with_fuel(times_alpha_pow, 2);
    assert forall|row: int| 0 <= row < 64 implies #[trigger] ring_mul(p, alpha_poly())[row]
        == times_alpha(p)[row] by {
        lemma_ring_mul_monomial(p, alpha_poly(), 1, row);
    }
    assert(ring_mul(p, alpha_poly()) =~= times_alpha(p));
}

/// `p * 0 = 0`.
pub proof fn lemma_ring_mul_zero(p: Seq<int>)
    ensures
        ring_mul(p, zero_poly()) == zero_poly(),
{
    let t = toeplitz(p);
    assert forall|row: int| 0 <= row < 64 implies #[trigger] ring_mul(p, zero_poly())[row] == 0 by {
        lemma_column_sum_isum(t, zero_poly(), row, 64);
        assert forall|c: int| 0 <= c < 64 implies #[trigger] (t[c][row] * zero_poly()[c]) == 0 by {
            assert(zero_poly()[c] == 0);
        }
        lemma_isum_zero(|c: int| t[c][row] * zero_poly()[c], 64);
    }
    assert(ring_mul(p, zero_poly()) =~= zero_poly());
}

/// Signed and unsigned inputs agree wherever the sign bit or the input bit is clear: when
/// that holds at every position, the signed digest is the unsigned one.
pub proof fn lemma_signed_digest_unsigned(block: Seq<u8>, sign: Seq<u8>)
    requires
        block.len() == 128,
        sign.len() == 128,
        forall|p: int|
            0 <= p < 1024 ==> #[trigger] input_bit(sign, p) == 0 || input_bit(block, p) == 0,
    ensures
        signed_block_digest(block, sign) == block_digest(block),
{
    assert forall|i: int| 0 <= i < 16 implies #[trigger] signed_input_poly(block, sign, i)
        == input_poly(block, i) by {
        assert forall|j: int| 0 <= j < 64 implies #[trigger] signed_input_poly(block, sign, i)[j]
            == input_poly(block, i)[j] by {
            assert(0 <= 64 * i + j < 1024);
            assert(input_bit(sign, 64 * i + j) == 0 || input_bit(block, 64 * i + j) == 0);
        }
        assert(signed_input_poly(block, sign, i) =~= input_poly(block, i));
    }
    assert(signed_block_polys(block, sign) =~= block_polys(block));
}

/// The sign bits matter only where the input bit is set: two sign blocks that agree there
/// give the same signed digest.
pub proof fn lemma_signs_where_input_clear(block: Seq<u8>, sign1: Seq<u8>, sign2: Seq<u8>)
    requires
        block.len() == 128,
        sign1.len() == 128,
        sign2.len() == 128,
        forall|p: int|
            0 <= p < 1024 && #[trigger] input_bit(block, p) != 0 ==> input_bit(sign1, p)
                == input_bit(sign2, p),
    ensures
        signed_block_digest(block, sign1) == signed_block_digest(block, sign2),
{
    assert forall|i: int| 0 <= i < 16 implies #[trigger] signed_input_poly(block, sign1, i)
        == signed_input_poly(block, sign2, i) by {
        assert forall|j: int| 0 <= j < 64 implies #[trigger] signed_input_poly(block, sign1, i)[j]
            == signed_input_poly(block, sign2, i)[j] by {
            assert(0 <= 64 * i + j < 1024);
            if input_bit(block, 64 * i + j) != 0 {
                assert(input_bit(sign1, 64 * i + j) == input_bit(sign2, 64 * i + j));
            }
        }
        assert(signed_input_poly(block, sign1, i) =~= signed_input_poly(block, sign2, i));
    }
    assert(signed_block_polys(block, sign1) =~= signed_block_polys(block, sign2));
}

/// The block with bit `p` flipped.
pub open spec fn flip_bit(block: Seq<u8>, p: int) -> Seq<u8> {
    block.update(p / 8, block[p / 8] ^ (1u8 << ((p % 8) as u8)))
}

proof fn lemma_flip_bit(block: Seq<u8>, p: int, q: int)
    requires
        block.len() == 128,
        0 <= p < 1024,
        0 <= q < 1024,
    ensures
        input_bit(flip_bit(block, p), q) == (if q == p {
            1 - input_bit(block, p)
        } else {
            input_bit(block, q)
        }),
{
    let x = block[p / 8];
    let s = (p % 8) as u8;
    let t = (q % 8) as u8;
    assert(forall|x: u8, s: u8|
        s < 8 ==> ((x ^ (1u8 << s)) >> s) & 1u8 == (((x >> s) & 1u8) ^ 1u8)) by (bit_vector);
    assert(forall|x: u8, s: u8, t: u8|
        s < 8 && t < 8 && s != t ==> ((x ^ (1u8 << s)) >> t) & 1u8 == (x >> t) & 1u8)
        by (bit_vector);
    assert(forall|b: u8| b & 1u8 == 0u8 || b & 1u8 == 1u8) by (bit_vector);
    assert(forall|b: u8| (b & 1u8 == 0u8 ==> ((b & 1u8) ^ 1u8) == 1u8) && (b & 1u8 == 1u8 ==> ((b
        & 1u8) ^ 1u8) == 0u8)) by (bit_vector);
    if q / 8 == p / 8 && q != p {
        assert(q % 8 != p % 8);
    }
}

/// Changing one term changes the sum by the difference of that term.
proof fn lemma_isum_change_one(f: spec_fn(int) -> int, g: spec_fn(int) -> int, n: nat, c0: int)
    requires
        0 <= c0 < n,
        forall|j: int| 0 <= j < n && j != c0 ==> #[trigger] f(j) == g(j),
    ensures
        isum(g, n) == isum(f, n) + g(c0) - f(c0),
    decreases n,
{
    let m = (n - 1) as nat;
    if c0 < m {
        lemma_isum_change_one(f, g, m, c0);
    } else {
        crate::sums::lemma_isum_ext(f, g, m);
    }
}

/// The ring product is linear in its second argument: changing coefficient `c0` of `x` by
/// `delta` adds `delta * alpha^c0 * a`.
proof fn lemma_ring_mul_change(a: Seq<int>, x: Seq<int>, y: Seq<int>, c0: int, delta: int, row: int)
    requires
        is_poly(a),
        0 <= c0 < 64,
        0 <= row < 64,
        forall|c: int| 0 <= c < 64 && c != c0 ==> #[trigger] x[c] == y[c],
        y[c0] == x[c0] + delta,
    ensures
        ring_mul(a, y)[row] == fadd(
            ring_mul(a, x)[row],
            fmul(times_alpha_pow(a, c0 as nat)[row], delta),
        ),
{
    let t = toeplitz(a);
    lemma_column_sum_isum(t, x, row, 64);
    lemma_column_sum_isum(t, y, row, 64);
    let f = |c: int| t[c][row] * x[c];
    let g = |c: int| t[c][row] * y[c];
    lemma_isum_change_one(f, g, 64, c0);
    let d = t[c0][row] * delta;
    assert(g(c0) - f(c0) == d) by (nonlinear_arith)
        requires
            g(c0) == t[c0][row] * y[c0],
            f(c0) == t[c0][row] * x[c0],
            y[c0] == x[c0] + delta,
            d == t[c0][row] * delta,
    ;
    lemma_add_mod_noop(isum(f, 64), d, 257);
}

/// Sums of ring products that differ in one input by `d`.
proof fn lemma_naive_sum_change(xs: Seq<Seq<int>>, ys: Seq<Seq<int>>, i0: int, d: Seq<int>, m: nat, row: int)
    requires
        0 <= i0 < 16,
        m <= 16,
        0 <= row < 64,
        forall|i: int| 0 <= i < 16 && i != i0 ==> #[trigger] xs[i] == ys[i],
        forall|r: int|
            0 <= r < 64 ==> #[trigger] ring_mul(multiplier(i0), ys[i0])[r] == fadd(
                ring_mul(multiplier(i0), xs[i0])[r],
                d[r],
            ),
    ensures
        naive_sum(ys, m)[row] == (if m > i0 {
            fadd(naive_sum(xs, m)[row], d[row])
        } else {
            naive_sum(xs, m)[row]
        }),
    decreases m,
{
    if m > 0 {
        let k = (m - 1) as nat;
        lemma_naive_sum_change(xs, ys, i0, d, k, row);
        let s = naive_sum(xs, k)[row];
        let r = ring_mul(multiplier(k as int), xs[k as int])[row];
        if k == i0 {
            lemma_fadd_assoc(s, r, d[row]);
        } else if k > i0 {
            lemma_fadd_assoc(s, d[row], r);
            lemma_fadd_assoc(s, r, d[row]);
            assert(fadd(d[row], r) == fadd(r, d[row]));
        }
    }
}

/// If `alpha^k * a` is zero, so is `a`.
proof fn lemma_times_alpha_pow_zero(a: Seq<int>, k: nat)
    requires
        is_poly(a),
        forall|i: int| 0 <= i < 64 ==> #[trigger] times_alpha_pow(a, k)[i] == 0,
    ensures
        forall|i: int| 0 <= i < 64 ==> #[trigger] a[i] == 0,
    decreases k,
{
    if k > 0 {
        let b = times_alpha_pow(a, (k - 1) as nat);
        crate::polynomial::lemma_times_alpha_pow_is_poly(a, (k - 1) as nat);
        assert forall|i: int| 0 <= i < 64 implies #[trigger] b[i] == 0 by {
            assert(times_alpha_pow(a, k) == times_alpha(b));
            if i < 63 {
                assert(times_alpha_pow(a, k)[i + 1] == 0);
                assert(times_alpha(b)[i + 1] == b[i]);
            } else {
                assert(times_alpha_pow(a, k)[0] == 0);
                assert(times_alpha(b)[0] == fneg(b[63]));
                assert(canonical(b[63]));
            }
        }
        lemma_times_alpha_pow_zero(a, (k - 1) as nat);
    } else {
        assert(times_alpha_pow(a, 0) == a);
    }
}

/// The digest depends on every bit: flipping any one bit of a block changes its digest.
pub proof fn lemma_every_bit_changes_digest(block: Seq<u8>, p: int)
    requires
        block.len() == 128,
        0 <= p < 1024,
    ensures
        block_digest(flip_bit(block, p)) != block_digest(block),
{
    let flipped = flip_bit(block, p);
    let xs = block_polys(block);
    let ys = block_polys(flipped);
    let i0 = p / 64;
    let j0 = p % 64;
    assert(p == 64 * i0 + j0);
    assert forall|i: int| 0 <= i < 16 && i != i0 implies #[trigger] xs[i] == ys[i] by {
        assert forall|j: int| 0 <= j < 64 implies #[trigger] xs[i][j] == ys[i][j] by {
            lemma_flip_bit(block, p, 64 * i + j);
        }
        assert(xs[i] =~= ys[i]);
    }
    let x0 = xs[i0];
    let y0 = ys[i0];
    assert forall|c: int| 0 <= c < 64 && c != j0 implies #[trigger] x0[c] == y0[c] by {
        lemma_flip_bit(block, p, 64 * i0 + c);
    }
    lemma_flip_bit(block, p, p);
    assert(forall|b: u8| (b & 1u8) == 0u8 || (b & 1u8) == 1u8) by (bit_vector);
    assert(x0[j0] == input_bit(block, p));
    assert(x0[j0] == 0 || x0[j0] == 1);
    let delta = y0[j0] - x0[j0];
    assert(delta == 1 || delta == -1);
    let a = multiplier(i0);
    let t = times_alpha_pow(a, j0 as nat);
    let d = Seq::new(64, |r: int| fmul(t[r], delta));
    assert(is_poly(a));
    assert forall|r: int| 0 <= r < 64 implies #[trigger] ring_mul(a, y0)[r] == fadd(
        ring_mul(a, x0)[r],
        d[r],
    ) by {
        lemma_ring_mul_change(a, x0, y0, j0, delta, r);
    }
    if block_digest(flipped) == block_digest(block) {
        crate::polynomial::lemma_times_alpha_pow_is_poly(a, j0 as nat);
        assert forall|r: int| 0 <= r < 64 implies #[trigger] t[r] == 0 by {
            lemma_naive_sum_change(xs, ys, i0, d, 16, r);
            let s = naive_sum(xs, 16)[r];
            assert(naive_sum(ys, 16)[r] == fadd(s, d[r]));
            assert(fadd(s, d[r]) == s);
            assert(canonical(s));
            assert(canonical(t[r]));
            assert(d[r] == fmul(t[r], delta));
            // s + d = s (mod 257) with s, d canonical forces d = 0
            assert(d[r] == 0);
            lemma_small_mod(t[r] as nat, 257);
            if delta == 1 {
                assert(fmul(t[r], 1) == t[r]);
            } else {
                assert(fmul(t[r], -1) == (-t[r]) % 257);
            }
        }
        lemma_times_alpha_pow_zero(a, j0 as nat);
        lemma_multiplier_nonzero(i0);
    }
}

} // verus!
