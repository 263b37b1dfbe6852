//! The ring Z_257[alpha]/(alpha^64 + 1): coefficient-wise operations, the schoolbook
//! product, and the product through the number-theoretic transform.
use crate::arith::{canonical, fadd, fmul, fneg, fsub, lemma_fmul_comm, lemma_roots_of_order_64, zpow};
use crate::convolution::lemma_convolution;
use crate::fft::best_fft;
use crate::hash::{block_polys, parse_input_block, poly_views, Input, SwifftInput};
use crate::transform::dft;
use crate::z257::{lemma_z257_canonical, Z257, OMEGA_ORDER_128, OMEGA_ORDER_64};
use vstd::arithmetic::power2::lemma2_to64;
use vstd::prelude::*;

verus! {

broadcast use lemma_z257_canonical;

/// The degree bound of the ring and the length of the transform.
pub const N: usize = 64;

/// The coefficients of a polynomial, index `i` holding the coefficient of `alpha^i`.
pub type Coefficients = [Z257; 64];

/// A 64 x 64 matrix over Z_257, held as its columns.
pub type Matrix = [Polynomial; 64];

/// An element of the ring Z_257[alpha]/(alpha^64 + 1).
#[derive(Clone, Copy, Debug)]
pub struct Polynomial(Coefficients);

/// Whether `a` is the coefficient sequence of a ring element.
pub open spec fn is_poly(a: Seq<int>) -> bool {
    a.len() == 64 && forall|i: int| 0 <= i < 64 ==> #[trigger] canonical(a[i])
}

pub open spec fn poly_neg(a: Seq<int>) -> Seq<int> {
    Seq::new(64, |i: int| fneg(a[i]))
}

pub open spec fn poly_add(a: Seq<int>, b: Seq<int>) -> Seq<int> {
    Seq::new(64, |i: int| fadd(a[i], b[i]))
}

pub open spec fn poly_sub(a: Seq<int>, b: Seq<int>) -> Seq<int> {
    Seq::new(64, |i: int| fsub(a[i], b[i]))
}

pub open spec fn poly_scale(a: Seq<int>, s: int) -> Seq<int> {
    Seq::new(64, |i: int| fmul(a[i], s))
}

/// The coefficient-wise product.
pub open spec fn hadamard(a: Seq<int>, b: Seq<int>) -> Seq<int> {
    Seq::new(64, |i: int| fmul(a[i], b[i]))
}

/// `sum_{i < n} a[i] * b[i]` in Z_257.
pub open spec fn dot_upto(a: Seq<int>, b: Seq<int>, n: nat) -> int
    decreases n,
{
    if n == 0 {
        0
    } else {
        fadd(dot_upto(a, b, (n - 1) as nat), fmul(a[n - 1], b[n - 1]))
    }
}

pub open spec fn dot(a: Seq<int>, b: Seq<int>) -> int {
    dot_upto(a, b, 64)
}

/// `alpha * a`: the coefficients move up by one and the top one comes back negated.
pub open spec fn times_alpha(a: Seq<int>) -> Seq<int> {
    Seq::new(64, |i: int| if i == 0 { fneg(a[63]) } else { a[i - 1] })
}

/// `alpha^k * a`.
pub open spec fn times_alpha_pow(a: Seq<int>, k: nat) -> Seq<int>
    decreases k,
{
    if k == 0 {
        a
    } else {
        times_alpha(times_alpha_pow(a, (k - 1) as nat))
    }
}

/// The matrix of multiplication by `a`: column `c` is `alpha^c * a`.
pub open spec fn toeplitz(a: Seq<int>) -> Seq<Seq<int>> {
    Seq::new(64, |c: int| times_alpha_pow(a, c as nat))
}

/// `sum_{c < n} m[c][row] * v[c]` in Z_257.
pub open spec fn column_sum(m: Seq<Seq<int>>, v: Seq<int>, row: int, n: nat) -> int
    decreases n,
{
    if n == 0 {
        0
    } else {
        fadd(column_sum(m, v, row, (n - 1) as nat), fmul(m[n - 1][row], v[n - 1]))
    }
}

/// The matrix (given by columns) times the column vector `v`.
pub open spec fn mat_vec(m: Seq<Seq<int>>, v: Seq<int>) -> Seq<int> {
    Seq::new(64, |row: int| column_sum(m, v, row, 64))
}

/// The row vector `v` times the matrix (given by columns).
pub open spec fn vec_mat(v: Seq<int>, m: Seq<Seq<int>>) -> Seq<int> {
    Seq::new(64, |c: int| dot(v, m[c]))
}

/// The product in the ring Z_257[alpha]/(alpha^64 + 1): the negacyclic convolution.
pub open spec fn ring_mul(a: Seq<int>, b: Seq<int>) -> Seq<int> {
    mat_vec(toeplitz(a), b)
}

/// `1, x, x^2, ..., x^63`.
pub open spec fn point_powers(x: int) -> Seq<int> {
    Seq::new(64, |i: int| zpow(x, i as nat))
}

/// The value of the polynomial `a` at the point `x`.
pub open spec fn evaluate(a: Seq<int>, x: int) -> int {
    dot(a, point_powers(x))
}

/// The coefficients of a matrix's columns.
pub open spec fn matrix_view(m: Seq<Polynomial>) -> Seq<Seq<int>> {
    Seq::new(m.len(), |c: int| m[c]@)
}

pub open spec fn zero_poly() -> Seq<int> {
    Seq::new(64, |i: int| 0int)
}

pub open spec fn one_poly() -> Seq<int> {
    Seq::new(64, |i: int| if i == 0 { 1int } else { 0int })
}

pub open spec fn alpha_poly() -> Seq<int> {
    Seq::new(64, |i: int| if i == 1 { 1int } else { 0int })
}

/// `w^(-1)` for `w = 81`, the root of the forward transform: `81 * 165 = 1 (mod 257)`.
pub const OMEGA_ORDER_64_INV: u16 = 165;

/// `psi^(-1)` for the twist root `psi = 9`: `9 * 200 = 1 (mod 257)`.
pub const OMEGA_ORDER_128_INV: u16 = 200;

/// `N^(-1)` for `N = 64`: `64 * 253 = 1 (mod 257)`.
pub const N_INV: u16 = 253;

/// The twist that turns the negacyclic product into a cyclic one: `a[i] * 9^i`.
pub open spec fn twist(a: Seq<int>) -> Seq<int> {
    hadamard(a, point_powers(9))
}

/// The Fourier coefficients of `a`: the length-64 transform with root 81 of its twist,
/// that is `a` evaluated at the odd powers of 9.
pub open spec fn fourier(a: Seq<int>) -> Seq<int> {
    dft(twist(a), 81)
}

/// The factors that undo the twist and the scaling by `N`: `9^(-i) * 64^(-1)`.
pub open spec fn normalisation() -> Seq<int> {
    poly_scale(point_powers(200), 253)
}

/// The inverse of `fourier`: the transform with root `81^(-1)`, then the normalisation.
pub open spec fn interpolate(a: Seq<int>) -> Seq<int> {
    hadamard(dft(a, 165), normalisation())
}

impl View for Polynomial {
    type V = Seq<int>;

    closed spec fn view(&self) -> Seq<int> {
        self.0@.map_values(|z: Z257| z@)
    }
}

impl PartialEq for Polynomial {
    /// Two polynomials are equal when all their coefficients are.
    fn eq(&self, other: &Polynomial) -> (r: bool) {
        let mut i: usize = 0;
        while i < 64
            invariant
                i <= 64,
                forall|j: int| 0 <= j < i ==> self@[j] == other@[j],
            decreases 64 - i,
        {
            if self.0[i].value() != other.0[i].value() {
                assert(self@[i as int] != other@[i as int]);
                return false;
            }
            i = i + 1;
        }
        assert(self@ =~= other@);
        true
    }
}

impl vstd::std_specs::cmp::PartialEqSpecImpl for Polynomial {
    open spec fn obeys_eq_spec() -> bool {
        true
    }

    open spec fn eq_spec(&self, other: &Polynomial) -> bool {
        self@ == other@
    }
}

/// Every polynomial views as 64 canonical coefficients.
pub broadcast proof fn lemma_polynomial_is_poly(p: Polynomial)
    ensures
        #[trigger] is_poly(p@),
{
    assert forall|i: int| 0 <= i < 64 implies #[trigger] canonical(p@[i]) by {
        lemma_z257_canonical(p.0@[i]);
    }
}

pub proof fn lemma_times_alpha_pow_is_poly(a: Seq<int>, k: nat)
    requires
        is_poly(a),
    ensures
        is_poly(times_alpha_pow(a, k)),
    decreases k,
{
    if k > 0 {
        lemma_times_alpha_pow_is_poly(a, (k - 1) as nat);
    }
}

impl Polynomial {
    /// The polynomial with the given coefficients.
    pub fn new(coefficients: Coefficients) -> (r: Polynomial)
        ensures
            r@ == coefficients@.map_values(|z: Z257| z@),
    {
        Polynomial(coefficients)
    }

    /// The additive identity.
    pub fn zero() -> (r: Polynomial)
        ensures
            r@ == zero_poly(),
    {
        let r = Polynomial([Z257::zero(); 64]);
        assert(r@ =~= zero_poly());
        r
    }

    /// The multiplicative identity.
    pub fn one() -> (r: Polynomial)
        ensures
            r@ == one_poly(),
    {
        let mut c = [Z257::zero(); 64];
        c[0] = Z257::one();
        let r = Polynomial(c);
        assert(r@ =~= one_poly());
        r
    }

    /// The polynomial `alpha`.
    pub fn alpha() -> (r: Polynomial)
        ensures
            r@ == alpha_poly(),
    {
        let mut c = [Z257::zero(); 64];
        c[1] = Z257::one();
        let r = Polynomial(c);
        assert(r@ =~= alpha_poly());
        r
    }

    /// The polynomial whose coefficients are the given values reduced mod 257.
    pub fn from_coefficients(coefficients: &[u16; 64]) -> (r: Polynomial)
        ensures
            r@ == Seq::new(64, |i: int| coefficients@[i] as int % 257),
    {
        let mut values = [Z257::zero(); 64];
        for i in 0..64
            invariant
                forall|j: int| 0 <= j < i ==> #[trigger] values@[j]@ == coefficients@[j] as int % 257,
        {
            values[i] = Z257::new(coefficients[i]);
        }
        let r = Polynomial(values);
        assert(r@ =~= Seq::new(64, |i: int| coefficients@[i] as int % 257));
        r
    }

    /// The polynomial `1 + x alpha + x^2 alpha^2 + ... + x^63 alpha^63`.
    pub fn from_point_powers(point: &Z257) -> (r: Polynomial)
        ensures
            r@ == point_powers(point@),
    {
        let mut powers = [Z257::zero(); 64];
        powers[0] = Z257::one();
        proof {
            reveal_with_fuel(zpow, 1);
        }
        for i in 1..64
            invariant
                powers@[0]@ == 1,
                forall|j: int| 0 <= j < i ==> #[trigger] powers@[j]@ == zpow(point@, j as nat),
        {
            powers[i] = powers[i - 1].cn_mul(point);
            proof {
                lemma_fmul_comm(zpow(point@, (i - 1) as nat), point@);
            }
        }
        let r = Polynomial(powers);
        assert(r@ =~= point_powers(point@));
        r
    }

    /// The coefficients, index `i` holding the coefficient of `alpha^i`.
    pub fn coefficients(&self) -> (r: &Coefficients)
        ensures
            r@.map_values(|z: Z257| z@) == self@,
    {
        &self.0
    }

    /// The coefficient of `alpha^i`.
    pub fn coefficient(&self, i: usize) -> (r: Z257)
        requires
            i < 64,
        ensures
            r@ == self@[i as int],
    {
        self.0[i]
    }

    pub fn cn_neg(&self) -> (r: Polynomial)
        ensures
            r@ == poly_neg(self@),
    {
        let mut out = [Z257::zero(); 64];
        for i in 0..64
            invariant
                forall|j: int| 0 <= j < i ==> #[trigger] out@[j]@ == fneg(self@[j]),
        {
            out[i] = self.0[i].cn_neg();
        }
        let r = Polynomial(out);
        assert(r@ =~= poly_neg(self@));
        r
    }

    pub fn cn_add(&self, rhs: &Polynomial) -> (r: Polynomial)
        ensures
            r@ == poly_add(self@, rhs@),
    {
        let mut out = [Z257::zero(); 64];
        for i in 0..64
            invariant
                forall|j: int| 0 <= j < i ==> #[trigger] out@[j]@ == fadd(self@[j], rhs@[j]),
        {
            out[i] = self.0[i].cn_add(&rhs.0[i]);
        }
        let r = Polynomial(out);
        assert(r@ =~= poly_add(self@, rhs@));
        r
    }

    pub fn cn_sub(&self, rhs: &Polynomial) -> (r: Polynomial)
        ensures
            r@ == poly_sub(self@, rhs@),
    {
        let mut out = [Z257::zero(); 64];
        for i in 0..64
            invariant
                forall|j: int| 0 <= j < i ==> #[trigger] out@[j]@ == fsub(self@[j], rhs@[j]),
        {
            out[i] = self.0[i].cn_sub(&rhs.0[i]);
        }
        let r = Polynomial(out);
        assert(r@ =~= poly_sub(self@, rhs@));
        r
    }

    /// Every coefficient times `scalar`.
    pub fn scalar_mul(&self, scalar: &Z257) -> (r: Polynomial)
        ensures
            r@ == poly_scale(self@, scalar@),
    {
        let mut out = [Z257::zero(); 64];
        for i in 0..64
            invariant
                forall|j: int| 0 <= j < i ==> #[trigger] out@[j]@ == fmul(self@[j], scalar@),
        {
            out[i] = self.0[i].cn_mul(scalar);
        }
        let r = Polynomial(out);
        assert(r@ =~= poly_scale(self@, scalar@));
        r
    }

    /// The dot product of the two coefficient vectors.
    pub fn dot_product(&self, rhs: &Polynomial) -> (r: Z257)
        ensures
            r@ == dot(self@, rhs@),
    {
        let mut acc = Z257::zero();
        for i in 0..64
            invariant
                acc@ == dot_upto(self@, rhs@, i as nat),
        {
            let term = self.0[i].cn_mul(&rhs.0[i]);
            acc = acc.cn_add(&term);
        }
        acc
    }

    /// The coefficient-wise (Hadamard) product; not the ring product.
    pub fn hadamard_product(&self, rhs: &Polynomial) -> (r: Polynomial)
        ensures
            r@ == hadamard(self@, rhs@),
    {
        let mut out = [Z257::zero(); 64];
        for i in 0..64
            invariant
                forall|j: int| 0 <= j < i ==> #[trigger] out@[j]@ == fmul(self@[j], rhs@[j]),
        {
            out[i] = self.0[i].cn_mul(&rhs.0[i]);
        }
        let r = Polynomial(out);
        assert(r@ =~= hadamard(self@, rhs@));
        r
    }

    /// `alpha * self`: a negacyclic rotation of the coefficients.
    pub fn increment_power(&self) -> (r: Polynomial)
        ensures
            r@ == times_alpha(self@),
    {
        let mut out = [Z257::zero(); 64];
        out[0] = self.0[63].cn_neg();
        for i in 1..64
            invariant
                out@[0]@ == fneg(self@[63]),
                forall|j: int| 1 <= j < i ==> #[trigger] out@[j]@ == self@[j - 1],
        {
            out[i] = self.0[i - 1];
        }
        let r = Polynomial(out);
        assert(r@ =~= times_alpha(self@));
        r
    }

    /// The value of this polynomial at `point`.
    pub fn evaluate_point(&self, point: &Z257) -> (r: Z257)
        ensures
            r@ == evaluate(self@, point@),
    {
        self.dot_product(&Polynomial::from_point_powers(point))
    }

    /// The matrix of multiplication by `self`: column `c` is `alpha^c * self`.
    pub fn toeplitz_matrix(&self) -> (r: Matrix)
        ensures
            matrix_view(r@) == toeplitz(self@),
    {
        let mut m = [*self; 64];
        for i in 1..64
            invariant
                forall|j: int| 0 <= j < i ==> #[trigger] m@[j]@ == times_alpha_pow(self@, j as nat),
        {
            m[i] = m[i - 1].increment_power();
        }
        assert(matrix_view(m@) =~= toeplitz(self@));
        m
    }

    /// The matrix `lhs` (given by columns) times the column vector `rhs`.
    pub fn matrix_mul_col_vec(lhs: &Matrix, rhs: &Polynomial) -> (r: Polynomial)
        ensures
            r@ == mat_vec(matrix_view(lhs@), rhs@),
    {
        let ghost m = matrix_view(lhs@);
        let mut product = [Z257::zero(); 64];
        for row in 0..64
            invariant
                m == matrix_view(lhs@),
                forall|j: int| 0 <= j < row ==> #[trigger] product@[j]@ == column_sum(m, rhs@, j, 64),
        {
            let mut acc = Z257::zero();
            for column in 0..64
                invariant
                    row < 64,
                    m == matrix_view(lhs@),
                    acc@ == column_sum(m, rhs@, row as int, column as nat),
            {
                let term = lhs[column].0[row].cn_mul(&rhs.0[column]);
                acc = acc.cn_add(&term);
            }
            product[row] = acc;
        }
        let r = Polynomial(product);
        assert(r@ =~= mat_vec(m, rhs@));
        r
    }

    /// The row vector `self` times the matrix `rhs` (given by columns).
    pub fn matrix_mul_row_vec(&self, rhs: &Matrix) -> (r: Polynomial)
        ensures
            r@ == vec_mat(self@, matrix_view(rhs@)),
    {
        let mut product = [Z257::zero(); 64];
        for column in 0..64
            invariant
                forall|j: int| 0 <= j < column ==> #[trigger] product@[j]@ == dot(self@, rhs@[j]@),
        {
            product[column] = self.dot_product(&rhs[column]);
        }
        let r = Polynomial(product);
        assert(r@ =~= vec_mat(self@, matrix_view(rhs@)));
        r
    }

    /// The ring product by the schoolbook method: the Toeplitz matrix of `self` times `rhs`.
    pub fn naive_mul(&self, rhs: &Polynomial) -> (r: Polynomial)
        ensures
            r@ == ring_mul(self@, rhs@),
    {
        Polynomial::matrix_mul_col_vec(&self.toeplitz_matrix(), rhs)
    }

    pub fn neg_assign(&mut self)
        ensures
            final(self)@ == poly_neg(old(self)@),
    {
        *self = self.cn_neg();
    }

    pub fn add_assign(&mut self, rhs: &Polynomial)
        ensures
            final(self)@ == poly_add(old(self)@, rhs@),
    {
        *self = self.cn_add(rhs);
    }

    pub fn sub_assign(&mut self, rhs: &Polynomial)
        ensures
            final(self)@ == poly_sub(old(self)@, rhs@),
    {
        *self = self.cn_sub(rhs);
    }

    pub fn scalar_mul_assign(&mut self, scalar: &Z257)
        ensures
            final(self)@ == poly_scale(old(self)@, scalar@),
    {
        *self = self.scalar_mul(scalar);
    }

    pub fn hadamard_product_assign(&mut self, rhs: &Polynomial)
        ensures
            final(self)@ == hadamard(old(self)@, rhs@),
    {
        *self = self.hadamard_product(rhs);
    }

    pub fn increment_power_assign(&mut self)
        ensures
            final(self)@ == times_alpha(old(self)@),
    {
        *self = self.increment_power();
    }

    /// The twist factors `1, 9, 9^2, ..., 9^63`.
    pub fn omega_order_128_powers() -> (r: Polynomial)
        ensures
            r@ == point_powers(9),
    {
        Polynomial::from_point_powers(&Z257::new(OMEGA_ORDER_128))
    }

    /// The factors `9^(-i) * 64^(-1)` applied after the inverse transform.
    pub fn fourier_normalisation_coefficients() -> (r: Polynomial)
        ensures
            r@ == normalisation(),
    {
        Polynomial::from_point_powers(&Z257::new(OMEGA_ORDER_128_INV)).scalar_mul(&Z257::new(N_INV))
    }

    /// Replaces `self` by its Fourier coefficients: the twist, then the transform with root 81.
    pub fn fourier_coefficients_assign(&mut self)
        ensures
            final(self)@ == fourier(old(self)@),
    {
        let powers = Polynomial::omega_order_128_powers();
        self.hadamard_product_assign(&powers);
        proof {
            lemma2_to64();
            lemma_roots_of_order_64();
        }
        best_fft(&mut self.0, Z257::new(OMEGA_ORDER_64), 6);
    }

    /// The Fourier coefficients of `self`.
    pub fn fourier_coefficients(&self) -> (r: Polynomial)
        ensures
            r@ == fourier(self@),
    {
        let mut r = *self;
        r.fourier_coefficients_assign();
        r
    }

    /// Replaces Fourier coefficients by the polynomial they come from.
    pub fn interpolate_fourier_coefficients_assign(&mut self)
        ensures
            final(self)@ == interpolate(old(self)@),
    {
        proof {
            lemma2_to64();
            lemma_roots_of_order_64();
        }
        best_fft(&mut self.0, Z257::new(OMEGA_ORDER_64_INV), 6);
        let norm = Polynomial::fourier_normalisation_coefficients();
        self.hadamard_product_assign(&norm);
    }

    /// The polynomial whose Fourier coefficients `self` holds.
    pub fn interpolate_fourier_coefficients(&self) -> (r: Polynomial)
        ensures
            r@ == interpolate(self@),
    {
        let mut r = *self;
        r.interpolate_fourier_coefficients_assign();
        r
    }

    /// The ring product through the transform: interpolate the coefficient-wise product of
    /// the two Fourier coefficient vectors.
    pub fn fft_mul_assign(&mut self, rhs: &Polynomial)
        ensures
            final(self)@ == interpolate(hadamard(fourier(old(self)@), fourier(rhs@))),
            final(self)@ == ring_mul(old(self)@, rhs@),
    {
        proof {
            lemma_convolution(self@, rhs@);
        }
        self.fourier_coefficients_assign();
        let rhs_coefficients = rhs.fourier_coefficients();
        self.hadamard_product_assign(&rhs_coefficients);
        self.interpolate_fourier_coefficients_assign();
    }

    /// The ring product through the transform.
    pub fn fft_mul(&self, rhs: &Polynomial) -> (r: Polynomial)
        ensures
            r@ == interpolate(hadamard(fourier(self@), fourier(rhs@))),
            r@ == ring_mul(self@, rhs@),
    {
        let mut r = *self;
        r.fft_mul_assign(rhs);
        r
    }

    /// `-c mod 257` for any 16-bit `c`.
    pub fn neg_coefficient(coefficient: &u16) -> (r: u16)
        ensures
            r as int == (-(*coefficient as int)) % 257,
    {
        let m = *coefficient % 257;
        if m == 0 {
            0
        } else {
            257 - m
        }
    }

    /// The 16 binary input polynomials of a block: coefficient `j` of polynomial `i` is bit
    /// `64 i + j` of the block.
    pub fn from_input_block(input: &Input) -> (r: SwifftInput)
        ensures
            poly_views(r@) == block_polys(input@),
    {
        parse_input_block(input)
    }
}

} // verus!
