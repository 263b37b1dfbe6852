//! The field Z_257 and its named roots of unity.
use crate::arith::{canonical, fadd, finv, fmul, fneg, fsub, lemma_fmul_comm, zpow};
use crate::fermat::lemma_mul_finv;
use vstd::prelude::*;

verus! {

/// The least primitive root of Z_257, a generator of its multiplicative group of order 256.
pub const LEAST_PRIMITIVE_ROOT: u16 = 3;

/// A primitive 128th root of unity: `3^2`.
pub const OMEGA_ORDER_128: u16 = 9;

/// A primitive 64th root of unity: `9^2`.
pub const OMEGA_ORDER_64: u16 = 81;

/// A primitive 32nd root of unity: `81^2`.
pub const OMEGA_ORDER_32: u16 = 136;

/// A primitive 16th root of unity: `136^2`.
pub const OMEGA_ORDER_16: u16 = 249;

/// A primitive 8th root of unity: `249^2`.
pub const OMEGA_ORDER_8: u16 = 64;

/// A primitive 4th root of unity: `64^2`.
pub const OMEGA_ORDER_4: u16 = 241;

/// The primitive square root of unity, `-1`: `241^2`.
pub const OMEGA_ORDER_2: u16 = 256;

/// An element of the prime field Z_257, held as its canonical representative.
#[derive(Clone, Copy, PartialEq, Eq, Structural, Debug)]
pub struct Z257(u16);

impl View for Z257 {
    type V = int;

    closed spec fn view(&self) -> int {
        self.0 as int % 257
    }
}

/// Every element views as a canonical representative.
pub broadcast proof fn lemma_z257_canonical(x: Z257)
    ensures
        #[trigger] canonical(x@),
{
}

impl Z257 {
    #[verifier::type_invariant]
    spec fn is_canonical(self) -> bool {
        self.0 < 257
    }

    /// The element whose representative is `v`, which must already be canonical.
    fn from_canonical(v: u16) -> (r: Z257)
        requires
            v < 257,
        ensures
            r@ == v as int,
    {
        Z257(v)
    }

    /// The element `value mod 257`.
    pub fn new(value: u16) -> (r: Z257)
        ensures
            r@ == value as int % 257,
    {
        Z257(value % 257)
    }

    /// The element `value mod 257`.
    pub fn from_u64(value: u64) -> (r: Z257)
        ensures
            r@ == value as int % 257,
    {
        Z257((value % 257) as u16)
    }

    /// The element `value` (every byte is already canonical).
    pub fn from_u8(value: u8) -> (r: Z257)
        ensures
            r@ == value as int,
    {
        Z257(value as u16)
    }

    /// One for `true`, zero for `false`.
    pub fn from_bool(value: bool) -> (r: Z257)
        ensures
            r@ == (if value { 1int } else { 0int }),
    {
        if value {
            Z257::one()
        } else {
            Z257::zero()
        }
    }

    /// The additive identity.
    pub fn zero() -> (r: Z257)
        ensures
            r@ == 0,
    {
        Z257(0)
    }

    /// The multiplicative identity.
    pub fn one() -> (r: Z257)
        ensures
            r@ == 1,
    {
        Z257(1)
    }

    /// The canonical representative, in `[0, 257)`.
    pub fn value(&self) -> (r: u16)
        ensures
            r as int == self@,
            r < 257,
    {
        proof {
            use_type_invariant(self);
        }
        self.0
    }

    pub fn cn_is_zero(&self) -> (r: bool)
        ensures
            r == (self@ == 0),
    {
        self.value() == 0
    }

    pub fn cn_is_one(&self) -> (r: bool)
        ensures
            r == (self@ == 1),
    {
        self.value() == 1
    }

    /// The additive inverse: zero for zero, `257 - x` otherwise.
    pub fn cn_neg(&self) -> (r: Z257)
        ensures
            r@ == fneg(self@),
    {
        let v = self.value();
        if v == 0 {
            Z257::zero()
        } else {
            Z257::from_canonical(257 - v)
        }
    }

    pub fn cn_add(&self, rhs: &Z257) -> (r: Z257)
        ensures
            r@ == fadd(self@, rhs@),
    {
        let s = self.value() + rhs.value();
        if s >= 257 {
            Z257::from_canonical(s - 257)
        } else {
            Z257::from_canonical(s)
        }
    }

    pub fn cn_sub(&self, rhs: &Z257) -> (r: Z257)
        ensures
            r@ == fsub(self@, rhs@),
    {
        let a = self.value();
        let b = rhs.value();
        if a >= b {
            Z257::from_canonical(a - b)
        } else {
            Z257::from_canonical(a + 257 - b)
        }
    }

    pub fn cn_mul(&self, rhs: &Z257) -> (r: Z257)
        ensures
            r@ == fmul(self@, rhs@),
    {
        let a = self.value() as u32;
        let b = rhs.value() as u32;
        assert(a * b <= 256 * 256) by (nonlinear_arith)
            requires
                a < 257,
                b < 257,
        ;
        Z257::from_canonical(((a * b) % 257) as u16)
    }

    /// `self * self`.
    pub fn square(&self) -> (r: Z257)
        ensures
            r@ == fmul(self@, self@),
    {
        self.cn_mul(self)
    }

    /// `self + self`.
    pub fn double(&self) -> (r: Z257)
        ensures
            r@ == fadd(self@, self@),
    {
        self.cn_add(self)
    }

    /// `self^e`, by repeated multiplication.
    pub fn cn_pow(&self, rhs: &Z257) -> (r: Z257)
        ensures
            r@ == zpow(self@, rhs@ as nat),
    {
        let e = rhs.value();
        let mut acc = Z257::one();
        let mut i: u16 = 0;
        while i < e
            invariant
                i <= e,
                e as int == rhs@,
                acc@ == zpow(self@, i as nat),
            decreases e - i,
        {
            let next = self.cn_mul(&acc);
            acc = next;
            i = i + 1;
        }
        acc
    }

    /// The multiplicative inverse `self^255`; zero has none.
    pub fn cn_inv(&self) -> (r: Z257)
        requires
            self@ != 0,
        ensures
            r@ == finv(self@),
            fmul(self@, r@) == 1,
    {
        let e = Z257::from_canonical(255);
        proof {
            lemma_mul_finv(self@);
        }
        self.cn_pow(&e)
    }

    pub fn cn_inv_checked(&self) -> (r: Option<Z257>)
        ensures
            self@ == 0 ==> r.is_none(),
            self@ != 0 ==> r.is_some() && r.unwrap()@ == finv(self@),
    {
        if self.cn_is_zero() {
            None
        } else {
            Some(self.cn_inv())
        }
    }

    /// `self / rhs = self * rhs^255`; dividing by zero is left out.
    pub fn cn_div(&self, rhs: &Z257) -> (r: Z257)
        requires
            rhs@ != 0,
        ensures
            r@ == fmul(self@, finv(rhs@)),
    {
        let inv = rhs.cn_inv();
        self.cn_mul(&inv)
    }

    pub fn cn_checked_div(&self, rhs: &Z257) -> (r: Option<Z257>)
        ensures
            rhs@ == 0 ==> r.is_none(),
            rhs@ != 0 ==> r.is_some() && r.unwrap()@ == fmul(self@, finv(rhs@)),
    {
        if rhs.cn_is_zero() {
            None
        } else {
            Some(self.cn_div(rhs))
        }
    }

    pub fn neg_assign(&mut self)
        ensures
            final(self)@ == fneg(old(self)@),
    {
        *self = self.cn_neg();
    }

    pub fn add_assign(&mut self, rhs: &Z257)
        ensures
            final(self)@ == fadd(old(self)@, rhs@),
    {
        *self = self.cn_add(rhs);
    }

    pub fn sub_assign(&mut self, rhs: &Z257)
        ensures
            final(self)@ == fsub(old(self)@, rhs@),
    {
        *self = self.cn_sub(rhs);
    }

    pub fn mul_assign(&mut self, rhs: &Z257)
        ensures
            final(self)@ == fmul(old(self)@, rhs@),
    {
        *self = self.cn_mul(rhs);
    }

    /// Divides in place; on a zero divisor returns `None` and leaves `self` as it was.
    pub fn checked_div_assign(&mut self, rhs: &Z257) -> (r: Option<()>)
        ensures
            rhs@ == 0 ==> r.is_none() && final(self)@ == old(self)@,
            rhs@ != 0 ==> r.is_some() && final(self)@ == fmul(old(self)@, finv(rhs@)),
    {
        if rhs.cn_is_zero() {
            None
        } else {
            *self = self.cn_div(rhs);
            Some(())
        }
    }

    pub fn pow_assign(&mut self, rhs: &Z257)
        ensures
            final(self)@ == zpow(old(self)@, rhs@ as nat),
    {
        *self = self.cn_pow(rhs);
    }

    /// Inverts in place; inverting zero is left out.
    pub fn inv_assign(&mut self)
        requires
            old(self)@ != 0,
        ensures
            final(self)@ == finv(old(self)@),
    {
        *self = self.cn_inv();
    }

    /// Inverts in place; on zero returns `None` and leaves `self` as it was.
    pub fn inv_assign_checked(&mut self) -> (r: Option<()>)
        ensures
            old(self)@ == 0 ==> r.is_none() && final(self)@ == old(self)@,
            old(self)@ != 0 ==> r.is_some() && final(self)@ == finv(old(self)@),
    {
        if self.cn_is_zero() {
            None
        } else {
            *self = self.cn_inv();
            Some(())
        }
    }

    /// The table of powers: `table[n][i] = n^i mod 257` for `n, i < 257`.
    pub fn compute_pow() -> (table: Vec<Vec<u16>>)
        ensures
            table@.len() == 257,
            forall|n: int| 0 <= n < 257 ==> #[trigger] table@[n]@.len() == 257,
            forall|n: int, i: int|
                0 <= n < 257 && 0 <= i < 257 ==> #[trigger] table@[n]@[i] as int == zpow(n, i as nat),
    {
        let mut table: Vec<Vec<u16>> = Vec::new();
        for n in 0..257u16
            invariant
                table@.len() == n,
                forall|k: int| 0 <= k < n ==> #[trigger] table@[k]@.len() == 257,
                forall|k: int, i: int|
                    0 <= k < n && 0 <= i < 257 ==> #[trigger] table@[k]@[i] as int == zpow(k, i as nat),
        {
            let base = Z257::new(n);
            let mut row: Vec<u16> = Vec::new();
            let mut power = Z257::one();
            for i in 0..257u16
                invariant
                    n < 257,
                    base@ == n as int,
                    row@.len() == i,
                    power@ == zpow(n as int, i as nat),
                    forall|j: int| 0 <= j < i ==> #[trigger] row@[j] as int == zpow(n as int, j as nat),
            {
                row.push(power.value());
                proof {
                    lemma_fmul_comm(power@, n as int);
                }
                power = power.cn_mul(&base);
            }
            table.push(row);
        }
        table
    }

    /// The table of inverses: `table[n] = n^255 mod 257`, the inverse of every non-zero `n`.
    pub fn compute_invert() -> (table: Vec<u16>)
        ensures
            table@.len() == 257,
            forall|n: int| 0 <= n < 257 ==> #[trigger] table@[n] as int == finv(n),
    {
        let mut table: Vec<u16> = Vec::new();
        let e = Z257::from_canonical(255);
        for n in 0..257u16
            invariant
                e@ == 255,
                table@.len() == n,
                forall|k: int| 0 <= k < n ==> #[trigger] table@[k] as int == finv(k),
        {
            table.push(Z257::new(n).cn_pow(&e).value());
        }
        table
    }

    /// The table of square roots: `table[n]` is the largest `m < 257` with `m^2 = n`, or
    /// `None` where `n` is not a square.
    pub fn compute_sqrt() -> (table: Vec<Option<u16>>)
        ensures
            table@.len() == 257,
            forall|n: int|
                0 <= n < 257 && #[trigger] table@[n] is Some ==> ({
                    let m = table@[n].unwrap() as int;
                    m < 257 && fmul(m, m) == n && forall|k: int| m < k < 257 ==> #[trigger] fmul(k, k)
                        != n
                }),
            forall|n: int|
                0 <= n < 257 && #[trigger] table@[n] is None ==> forall|k: int|
                    0 <= k < 257 ==> #[trigger] fmul(k, k) != n,
    {
        let mut table: Vec<Option<u16>> = Vec::new();
        for n in 0..257u16
            invariant
                table@.len() == n,
                forall|c: int|
                    0 <= c < n && #[trigger] table@[c] is Some ==> ({
                        let m = table@[c].unwrap() as int;
                        m < 257 && fmul(m, m) == c && forall|k: int| m < k < 257 ==> #[trigger] fmul(
                            k,
                            k,
                        ) != c
                    }),
                forall|c: int|
                    0 <= c < n && #[trigger] table@[c] is None ==> forall|k: int|
                        0 <= k < 257 ==> #[trigger] fmul(k, k) != c,
        {
            let target = Z257::new(n);
            let mut root: Option<u16> = None;
            for m in 0..257u16
                invariant
                    n < 257,
                    target@ == n as int,
                    root is None ==> forall|k: int| 0 <= k < m ==> #[trigger] fmul(k, k) != n,
                    root is Some ==> ({
                        let r = root.unwrap() as int;
                        r < m && fmul(r, r) == n && forall|k: int| r < k < m ==> #[trigger] fmul(k, k)
                            != n
                    }),
            {
                let z = Z257::new(m);
                if z.square().value() == n {
                    root = Some(m);
                }
            }
            table.push(root);
            assert(table@[n as int] == root);
        }
        table
    }
}

} // verus!
