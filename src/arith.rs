//! Arithmetic modulo the prime 257 as spec functions on integers, with the power laws.
use vstd::arithmetic::div_mod::*;
use vstd::arithmetic::mul::*;
use vstd::prelude::*;

verus! {

/// `(a + b) mod 257`.
pub open spec fn fadd(a: int, b: int) -> int {
    (a + b) % 257
}

/// `(a - b) mod 257`.
pub open spec fn fsub(a: int, b: int) -> int {
    (a - b) % 257
}

/// `(-a) mod 257`.
pub open spec fn fneg(a: int) -> int {
    (-a) % 257
}

/// `(a * b) mod 257`.
pub open spec fn fmul(a: int, b: int) -> int {
    (a * b) % 257
}

/// `a^e mod 257`, with `a^0 = 1`.
pub open spec fn zpow(a: int, e: nat) -> int
    decreases e,
{
    if e == 0 {
        1
    } else {
        fmul(a, zpow(a, (e - 1) as nat))
    }
}

/// The multiplicative inverse of a non-zero element, by Fermat: `a^255`.
pub open spec fn finv(a: int) -> int {
    zpow(a, 255)
}

/// Whether `a` is a canonical representative of the field.
pub open spec fn canonical(a: int) -> bool {
    0 <= a < 257
}

pub proof fn lemma_zpow_range(a: int, e: nat)
    ensures
        canonical(zpow(a, e)),
    decreases e,
{
    if e > 0 {
        lemma_zpow_range(a, (e - 1) as nat);
    }
}

pub proof fn lemma_fmul_assoc(a: int, b: int, c: int)
    ensures
        fmul(fmul(a, b), c) == fmul(a, fmul(b, c)),
{
    lemma_mul_mod_noop_left(a * b, c, 257);
    lemma_mul_mod_noop_right(a, b * c, 257);
    lemma_mul_is_associative(a, b, c);
}

pub proof fn lemma_fmul_comm(a: int, b: int)
    ensures
        fmul(a, b) == fmul(b, a),
{
    lemma_mul_is_commutative(a, b);
}

/// `a^(m + n) = a^m * a^n`.
pub proof fn lemma_zpow_adds(a: int, m: nat, n: nat)
    requires
        canonical(a),
    ensures
        zpow(a, m + n) == fmul(zpow(a, m), zpow(a, n)),
    decreases n,
{
    lemma_zpow_range(a, m);
    if n == 0 {
        assert(zpow(a, m + n) == zpow(a, m));
        lemma_small_mod(zpow(a, m) as nat, 257);
    } else {
        lemma_zpow_adds(a, m, (n - 1) as nat);
        assert(zpow(a, m + n) == fmul(a, zpow(a, (m + n - 1) as nat)));
        assert((m + n - 1) as nat == m + (n - 1) as nat);
        lemma_fmul_assoc(a, zpow(a, m), zpow(a, (n - 1) as nat));
        lemma_fmul_comm(a, zpow(a, m));
        lemma_fmul_assoc(zpow(a, m), a, zpow(a, (n - 1) as nat));
    }
}

/// Squaring modulo 257.
pub open spec fn sq(x: int) -> int {
    (x * x) % 257
}

pub proof fn lemma_zpow_double(a: int, k: nat)
    requires
        canonical(a),
    ensures
        zpow(a, 2 * k) == sq(zpow(a, k)),
{
    lemma_zpow_adds(a, k, k);
    assert(k + k == 2 * k);
}

/// `a^32` by five squarings.
pub proof fn lemma_zpow_32(a: int)
    requires
        canonical(a),
    ensures
        zpow(a, 32) == sq(sq(sq(sq(sq(a))))),
{
    reveal_with_fuel(zpow, 2);
    lemma_small_mod(a as nat, 257);
    lemma_zpow_double(a, 1);
    lemma_zpow_double(a, 2);
    lemma_zpow_double(a, 4);
    lemma_zpow_double(a, 8);
    lemma_zpow_double(a, 16);
}

/// 81 and its inverse 165 both have order 64: their 32nd powers are `-1`.
pub proof fn lemma_roots_of_order_64()
    ensures
        zpow(81, 32) == 256,
        zpow(165, 32) == 256,
        fmul(81, 165) == 1,
{
    lemma_zpow_32(81);
    assert(sq(81) == 136);
    assert(sq(136) == 249);
    assert(sq(249) == 64);
    assert(sq(64) == 241);
    assert(sq(241) == 256);
    lemma_zpow_32(165);
    assert(sq(165) == 240);
    assert(sq(240) == 32);
    assert(sq(32) == 253);
    assert(sq(253) == 16);
    assert(sq(16) == 256);
}

/// `(a^m)^n = a^(m n)`.
pub proof fn lemma_zpow_mul(a: int, m: nat, n: nat)
    requires
        canonical(a),
    ensures
        zpow(zpow(a, m), n) == zpow(a, m * n),
    decreases n,
{
    if n == 0 {
        assert(m * 0 == 0);
    } else {
        lemma_zpow_mul(a, m, (n - 1) as nat);
        assert(m * ((n - 1) as nat) + m == m * n) by (nonlinear_arith)
            requires
                n >= 1,
        ;
        lemma_zpow_adds(a, m * ((n - 1) as nat), m);
        lemma_fmul_comm(zpow(a, m), zpow(a, m * ((n - 1) as nat)));
    }
}

/// `a^n b^n = (a b)^n`.
pub proof fn lemma_zpow_product(a: int, b: int, n: nat)
    ensures
        fmul(zpow(a, n), zpow(b, n)) == zpow(fmul(a, b), n),
    decreases n,
{
    if n == 0 {
        lemma_small_mod(1, 257);
    } else {
        let m = (n - 1) as nat;
        lemma_zpow_product(a, b, m);
        let x = zpow(a, m);
        let y = zpow(b, m);
        // (a x)(b y) = (a b)(x y)
        lemma_fmul_assoc(a, x, fmul(b, y));
        lemma_fmul_assoc(x, b, y);
        lemma_fmul_comm(x, b);
        lemma_fmul_assoc(b, x, y);
        lemma_fmul_assoc(a, b, fmul(x, y));
        lemma_mul_mod_noop_left(a * b, fmul(x, y), 257);
        lemma_mul_mod_noop_right(a, fmul(b, fmul(x, y)), 257);
        lemma_mul_mod_noop_right(a, fmul(x, fmul(b, y)), 257);
        lemma_mul_mod_noop_right(x, fmul(b, y), 257);
        lemma_mul_mod_noop_right(b, fmul(x, y), 257);
    }
}

/// `(-1)^(2m+1) = -1`.
pub proof fn lemma_minus_one_odd_power(m: nat)
    ensures
        zpow(256, 2 * m + 1) == 256,
    decreases m,
{
    reveal_with_fuel(zpow, 2);
    if m > 0 {
        lemma_minus_one_odd_power((m - 1) as nat);
        lemma_zpow_adds(256, (2 * (m - 1) + 1) as nat, 2);
        assert((2 * (m - 1) + 1) as nat + 2 == 2 * m + 1);
        assert(zpow(256, 2) == 1);
    }
}

/// 9 has order 128: `9^64 = -1`; and `9^2 = 81`.
pub proof fn lemma_psi_powers()
    ensures
        zpow(9, 2) == 81,
        zpow(9, 64) == 256,
{
    reveal_with_fuel(zpow, 3);
    lemma_zpow_32(9);
    assert(sq(9) == 81);
    assert(sq(81) == 136);
    assert(sq(136) == 249);
    assert(sq(249) == 64);
    assert(sq(64) == 241);
    lemma_zpow_double(9, 32);
    assert(sq(241) == 256);
}

/// The powers `81^r` for `0 < r < 64` are all different from one, and `81^63 = 165`.
pub proof fn lemma_omega_order(r: int)
    requires
        0 < r < 64,
    ensures
        zpow(81, r as nat) != 1,
        zpow(81, 63) == 165,
{
    reveal_with_fuel(zpow, 2);
    assert(zpow(81, 1) == 81);
    assert(zpow(81, 2) == 136);
    assert(zpow(81, 3) == 222);
    assert(zpow(81, 4) == 249);
    assert(zpow(81, 5) == 123);
    assert(zpow(81, 6) == 197);
    assert(zpow(81, 7) == 23);
    assert(zpow(81, 8) == 64);
    assert(zpow(81, 9) == 44);
    assert(zpow(81, 10) == 223);
    assert(zpow(81, 11) == 73);
    assert(zpow(81, 12) == 2);
    assert(zpow(81, 13) == 162);
    assert(zpow(81, 14) == 15);
    assert(zpow(81, 15) == 187);
    assert(zpow(81, 16) == 241);
    assert(zpow(81, 17) == 246);
    assert(zpow(81, 18) == 137);
    assert(zpow(81, 19) == 46);
    assert(zpow(81, 20) == 128);
    assert(zpow(81, 21) == 88);
    assert(zpow(81, 22) == 189);
    assert(zpow(81, 23) == 146);
    assert(zpow(81, 24) == 4);
    assert(zpow(81, 25) == 67);
    assert(zpow(81, 26) == 30);
    assert(zpow(81, 27) == 117);
    assert(zpow(81, 28) == 225);
    assert(zpow(81, 29) == 235);
    assert(zpow(81, 30) == 17);
    assert(zpow(81, 31) == 92);
    assert(zpow(81, 32) == 256);
    assert(zpow(81, 33) == 176);
    assert(zpow(81, 34) == 121);
    assert(zpow(81, 35) == 35);
    assert(zpow(81, 36) == 8);
    assert(zpow(81, 37) == 134);
    assert(zpow(81, 38) == 60);
    assert(zpow(81, 39) == 234);
    assert(zpow(81, 40) == 193);
    assert(zpow(81, 41) == 213);
    assert(zpow(81, 42) == 34);
    assert(zpow(81, 43) == 184);
    assert(zpow(81, 44) == 255);
    assert(zpow(81, 45) == 95);
    assert(zpow(81, 46) == 242);
    assert(zpow(81, 47) == 70);
    assert(zpow(81, 48) == 16);
    assert(zpow(81, 49) == 11);
    assert(zpow(81, 50) == 120);
    assert(zpow(81, 51) == 211);
    assert(zpow(81, 52) == 129);
    assert(zpow(81, 53) == 169);
    assert(zpow(81, 54) == 68);
    assert(zpow(81, 55) == 111);
    assert(zpow(81, 56) == 253);
    assert(zpow(81, 57) == 190);
    assert(zpow(81, 58) == 227);
    assert(zpow(81, 59) == 140);
    assert(zpow(81, 60) == 32);
    assert(zpow(81, 61) == 22);
    assert(zpow(81, 62) == 240);
    assert(zpow(81, 63) == 165);
    if r == 1 {
    } else if r == 2 {
    } else if r == 3 {
    } else if r == 4 {
    } else if r == 5 {
    } else if r == 6 {
    } else if r == 7 {
    } else if r == 8 {
    } else if r == 9 {
    } else if r == 10 {
    } else if r == 11 {
    } else if r == 12 {
    } else if r == 13 {
    } else if r == 14 {
    } else if r == 15 {
    } else if r == 16 {
    } else if r == 17 {
    } else if r == 18 {
    } else if r == 19 {
    } else if r == 20 {
    } else if r == 21 {
    } else if r == 22 {
    } else if r == 23 {
    } else if r == 24 {
    } else if r == 25 {
    } else if r == 26 {
    } else if r == 27 {
    } else if r == 28 {
    } else if r == 29 {
    } else if r == 30 {
    } else if r == 31 {
    } else if r == 32 {
    } else if r == 33 {
    } else if r == 34 {
    } else if r == 35 {
    } else if r == 36 {
    } else if r == 37 {
    } else if r == 38 {
    } else if r == 39 {
    } else if r == 40 {
    } else if r == 41 {
    } else if r == 42 {
    } else if r == 43 {
    } else if r == 44 {
    } else if r == 45 {
    } else if r == 46 {
    } else if r == 47 {
    } else if r == 48 {
    } else if r == 49 {
    } else if r == 50 {
    } else if r == 51 {
    } else if r == 52 {
    } else if r == 53 {
    } else if r == 54 {
    } else if r == 55 {
    } else if r == 56 {
    } else if r == 57 {
    } else if r == 58 {
    } else if r == 59 {
    } else if r == 60 {
    } else if r == 61 {
    } else if r == 62 {
    } else if r == 63 {
    }
}

/// `1^n = 1`.
pub proof fn lemma_one_pow(n: nat)
    ensures
        zpow(1, n) == 1,
    decreases n,
{
    if n > 0 {
        lemma_one_pow((n - 1) as nat);
    }
}

pub proof fn lemma_fadd_assoc(a: int, b: int, c: int)
    ensures
        fadd(fadd(a, b), c) == fadd(a, fadd(b, c)),
{
    lemma_add_mod_noop(a + b, c, 257);
    lemma_add_mod_noop(a, b + c, 257);
    lemma_mod_twice(a, 257);
    lemma_mod_twice(c, 257);
}

} // verus!
