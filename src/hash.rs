//! The SWIFFT compression function: input parsing, the sum of the 16 ring products, batches,
//! signed inputs and compaction.
use crate::arith::fneg;
use crate::convolution::{
    lemma_convolution, lemma_fourier_add, lemma_fourier_ring_mul, lemma_interpolate_fourier,
    lemma_ring_mul_is_poly,
};
use crate::polynomial::{
    fourier, hadamard, interpolate, is_poly, lemma_polynomial_is_poly, poly_add, ring_mul,
    zero_poly, Polynomial,
};
use crate::z257::Z257;
use vstd::prelude::*;

verus! {

broadcast use lemma_polynomial_is_poly;

/// The number of input polynomials in a block.
pub const M: usize = 16;

/// The number of input bits in a block: `N * M`.
pub const INPUT_SIZE: usize = 1024;

/// The number of bytes in an input block, one bit per input coefficient.
pub const INPUT_BLOCK_SIZE: usize = 128;

/// The number of bytes of a digest on the wire: 64 little-endian 16-bit words.
pub const OUTPUT_BLOCK_SIZE: usize = 128;

/// The number of bytes of a compact digest.
pub const COMPACT_OUTPUT_BLOCK_SIZE: usize = 64;

/// An input block (also the shape of a sign block).
pub type Input = [u8; 128];

/// A digest: the 64 coefficients of the digest polynomial, each in `[0, 257)`.
pub type Output = [u16; 64];

/// A compact digest.
pub type CompactOutput = [u8; 64];

/// The 16 input polynomials of one block.
pub type SwifftInput = [Polynomial; 16];

/// The coefficients of the 16 fixed multiplier polynomials `A_0, ..., A_15`:
/// the first 1024 base-257 digits of the fractional part of pi.
pub const MULTIPLIER_POLYNOMIAL_COEFFICIENTS: [[u16; 64]; 16] = [
    [
        36, 100, 13, 171, 73, 31, 56, 254, 123, 132, 135, 43, 58, 150, 175, 107,
        110, 124, 82, 246, 26, 79, 169, 128, 19, 137, 105, 166, 236, 162, 191, 52,
        173, 202, 67, 173, 124, 10, 119, 182, 215, 32, 217, 25, 248, 77, 31, 91,
        2, 205, 192, 31, 158, 31, 72, 170, 131, 223, 224, 68, 97, 0, 246, 99,
    ],
    [
        229, 49, 7, 100, 179, 223, 97, 198, 39, 25, 112, 20, 35, 71, 113, 11,
        255, 118, 38, 81, 223, 4, 232, 115, 4, 86, 42, 250, 228, 0, 42, 255,
        254, 49, 150, 180, 12, 54, 189, 8, 32, 19, 165, 129, 190, 38, 196, 101,
        127, 143, 179, 199, 19, 14, 31, 28, 79, 213, 117, 232, 53, 123, 19, 8,
    ],
    [
        237, 251, 26, 41, 234, 120, 120, 222, 91, 68, 15, 234, 36, 50, 94, 84,
        45, 104, 56, 40, 178, 229, 13, 64, 152, 254, 59, 170, 189, 178, 54, 200,
        106, 97, 203, 83, 49, 174, 155, 41, 171, 147, 228, 118, 0, 203, 28, 68,
        53, 69, 60, 64, 32, 86, 202, 125, 77, 24, 214, 222, 58, 25, 196, 140,
    ],
    [
        112, 141, 74, 18, 147, 147, 112, 68, 132, 24, 185, 71, 124, 167, 250, 59,
        64, 224, 71, 4, 51, 201, 50, 9, 0, 130, 106, 222, 168, 40, 1, 83,
        64, 42, 28, 161, 79, 11, 216, 191, 31, 144, 149, 88, 161, 129, 169, 243,
        157, 185, 58, 123, 141, 241, 189, 256, 247, 188, 187, 175, 121, 118, 61, 224,
    ],
    [
        224, 4, 92, 162, 165, 197, 108, 166, 194, 165, 129, 114, 6, 169, 130, 148,
        26, 200, 233, 99, 36, 144, 55, 158, 193, 58, 167, 63, 207, 217, 175, 11,
        239, 212, 228, 95, 127, 167, 125, 164, 170, 249, 222, 147, 148, 48, 30, 121,
        97, 155, 9, 148, 247, 80, 106, 5, 10, 142, 242, 64, 169, 49, 160, 164,
    ],
    [
        218, 214, 152, 5, 127, 182, 133, 193, 117, 56, 72, 40, 66, 25, 1, 14,
        225, 17, 90, 195, 149, 174, 11, 70, 22, 240, 39, 113, 139, 48, 182, 44,
        167, 168, 45, 210, 218, 69, 100, 171, 166, 207, 107, 72, 51, 228, 214, 2,
        41, 168, 102, 255, 227, 200, 151, 122, 105, 128, 168, 134, 251, 150, 92, 230,
    ],
    [
        78, 35, 228, 204, 210, 98, 225, 237, 29, 62, 86, 235, 211, 196, 174, 167,
        194, 132, 23, 129, 23, 211, 213, 47, 229, 201, 221, 223, 205, 70, 226, 37,
        16, 73, 16, 35, 53, 247, 164, 130, 37, 106, 95, 98, 224, 239, 232, 27,
        87, 82, 256, 241, 243, 204, 180, 94, 47, 238, 89, 72, 119, 255, 183, 136,
    ],
    [
        227, 119, 28, 212, 47, 124, 34, 117, 124, 235, 117, 189, 119, 247, 108, 133,
        230, 143, 119, 154, 109, 150, 25, 252, 64, 144, 246, 155, 118, 221, 77, 214,
        87, 142, 71, 53, 117, 100, 196, 170, 247, 195, 215, 210, 196, 177, 138, 228,
        183, 49, 212, 249, 117, 228, 1, 208, 170, 231, 220, 78, 0, 219, 93, 159,
    ],
    [
        153, 160, 113, 34, 226, 46, 8, 163, 197, 13, 38, 123, 213, 129, 180, 249,
        195, 138, 218, 250, 69, 4, 77, 226, 70, 107, 42, 89, 162, 37, 247, 82,
        230, 209, 210, 153, 67, 221, 46, 161, 186, 8, 198, 149, 11, 17, 234, 34,
        231, 229, 79, 70, 171, 244, 221, 208, 223, 135, 157, 76, 49, 179, 1, 247,
    ],
    [
        67, 44, 135, 34, 136, 46, 192, 243, 5, 234, 198, 82, 191, 23, 61, 97,
        57, 105, 27, 18, 226, 157, 36, 193, 146, 22, 67, 65, 15, 161, 19, 133,
        0, 84, 220, 74, 245, 102, 18, 227, 34, 56, 86, 255, 0, 209, 51, 207,
        55, 169, 82, 10, 72, 249, 5, 87, 61, 40, 21, 142, 180, 44, 47, 82,
    ],
    [
        231, 199, 188, 234, 166, 169, 25, 245, 143, 255, 229, 25, 214, 134, 28, 25,
        130, 116, 28, 27, 151, 32, 125, 163, 28, 175, 171, 133, 158, 171, 227, 38,
        46, 22, 118, 235, 22, 211, 122, 13, 119, 188, 225, 55, 109, 175, 43, 16,
        248, 117, 207, 14, 205, 169, 32, 233, 32, 102, 131, 131, 106, 63, 69, 124,
    ],
    [
        63, 2, 181, 46, 173, 76, 253, 197, 95, 34, 209, 193, 69, 152, 1, 20,
        123, 238, 65, 152, 255, 15, 64, 207, 18, 150, 225, 196, 226, 223, 223, 90,
        30, 220, 51, 139, 90, 89, 208, 189, 192, 64, 23, 241, 175, 49, 130, 203,
        173, 124, 156, 99, 56, 26, 207, 113, 19, 193, 114, 21, 211, 64, 236, 174,
    ],
    [
        139, 191, 211, 105, 15, 248, 233, 100, 130, 205, 235, 38, 118, 174, 28, 197,
        144, 204, 16, 107, 137, 167, 18, 196, 234, 160, 10, 140, 193, 1, 95, 96,
        128, 149, 217, 67, 103, 145, 76, 202, 105, 10, 66, 161, 200, 80, 129, 225,
        109, 204, 193, 112, 129, 9, 210, 198, 137, 212, 238, 125, 209, 91, 86, 81,
    ],
    [
        231, 121, 161, 10, 191, 190, 254, 71, 188, 161, 2, 217, 212, 254, 256, 189,
        184, 159, 33, 245, 242, 182, 3, 170, 227, 116, 66, 141, 239, 194, 214, 202,
        129, 25, 253, 10, 36, 131, 79, 76, 211, 78, 62, 115, 155, 20, 105, 206,
        87, 112, 137, 5, 195, 128, 204, 79, 53, 101, 115, 96, 8, 13, 235, 125,
    ],
    [
        176, 95, 244, 162, 135, 82, 98, 102, 172, 56, 157, 95, 95, 41, 45, 255,
        138, 235, 115, 130, 214, 81, 7, 172, 175, 79, 193, 140, 221, 18, 207, 80,
        91, 168, 248, 136, 125, 155, 2, 46, 180, 26, 44, 169, 186, 105, 131, 138,
        137, 136, 232, 203, 195, 56, 164, 110, 91, 6, 0, 181, 107, 189, 232, 251,
    ],
    [
        24, 27, 33, 51, 37, 189, 39, 136, 252, 103, 113, 195, 207, 30, 227, 25,
        74, 147, 19, 64, 124, 29, 135, 42, 241, 19, 237, 179, 157, 118, 115, 22,
        247, 192, 168, 102, 0, 246, 135, 157, 109, 79, 215, 32, 116, 183, 162, 16,
        213, 193, 1, 79, 120, 167, 230, 21, 21, 148, 79, 197, 143, 174, 141, 20,
    ],
];

/// The multiplier polynomial `A_i`.
pub open spec fn multiplier(i: int) -> Seq<int> {
    Seq::new(64, |j: int| MULTIPLIER_POLYNOMIAL_COEFFICIENTS[i][j] as int % 257)
}

/// Bit `p` of a block: bit `p mod 8` of byte `p / 8`, least significant first.
pub open spec fn input_bit(block: Seq<u8>, p: int) -> int {
    ((block[p / 8] >> ((p % 8) as u8)) & 1u8) as int
}

/// The `i`-th input polynomial of a block: coefficient `j` is bit `64 i + j`.
pub open spec fn input_poly(block: Seq<u8>, i: int) -> Seq<int> {
    Seq::new(64, |j: int| input_bit(block, 64 * i + j))
}

/// The `i`-th signed input polynomial: a coefficient is negated where its sign bit is set.
pub open spec fn signed_input_poly(block: Seq<u8>, sign: Seq<u8>, i: int) -> Seq<int> {
    Seq::new(
        64,
        |j: int|
            if input_bit(sign, 64 * i + j) == 0 {
                input_bit(block, 64 * i + j)
            } else {
                fneg(input_bit(block, 64 * i + j))
            },
    )
}

/// The coefficient sequences of an array of polynomials.
pub open spec fn poly_views(a: Seq<Polynomial>) -> Seq<Seq<int>> {
    Seq::new(a.len(), |i: int| a[i]@)
}

/// `sum_{i < m} A_i * x_i` in the ring.
pub open spec fn naive_sum(xs: Seq<Seq<int>>, m: nat) -> Seq<int>
    decreases m,
{
    if m == 0 {
        zero_poly()
    } else {
        poly_add(naive_sum(xs, (m - 1) as nat), ring_mul(multiplier(m - 1), xs[m - 1]))
    }
}

/// `sum_{i < m} fourier(x_i) . fourier(A_i)`, coefficient-wise.
pub open spec fn fourier_sum(xs: Seq<Seq<int>>, m: nat) -> Seq<int>
    decreases m,
{
    if m == 0 {
        zero_poly()
    } else {
        poly_add(
            fourier_sum(xs, (m - 1) as nat),
            hadamard(fourier(xs[m - 1]), fourier(multiplier(m - 1))),
        )
    }
}

/// `sum_{i < m} interpolate(fourier(A_i) . fourier(x_i))`.
pub open spec fn product_sum(xs: Seq<Seq<int>>, m: nat) -> Seq<int>
    decreases m,
{
    if m == 0 {
        zero_poly()
    } else {
        poly_add(
            product_sum(xs, (m - 1) as nat),
            interpolate(hadamard(fourier(multiplier(m - 1)), fourier(xs[m - 1]))),
        )
    }
}


/// The 16 input polynomials of a block.
pub open spec fn block_polys(block: Seq<u8>) -> Seq<Seq<int>> {
    Seq::new(16, |i: int| input_poly(block, i))
}

/// The 16 signed input polynomials of a block and its sign block.
pub open spec fn signed_block_polys(block: Seq<u8>, sign: Seq<u8>) -> Seq<Seq<int>> {
    Seq::new(16, |i: int| signed_input_poly(block, sign, i))
}

/// The digest of an input block: `sum_i A_i * X_i`.
pub open spec fn block_digest(block: Seq<u8>) -> Seq<int> {
    naive_sum(block_polys(block), 16)
}

/// The digest of an input block with its sign block: `sum_i A_i * X_i` over the signed inputs.
pub open spec fn signed_block_digest(block: Seq<u8>, sign: Seq<u8>) -> Seq<int> {
    naive_sum(signed_block_polys(block, sign), 16)
}

/// Whether each of the first 16 sequences is a ring element.
pub open spec fn all_polys(xs: Seq<Seq<int>>) -> bool {
    xs.len() == 16 && forall|i: int| 0 <= i < 16 ==> #[trigger] is_poly(xs[i])
}

proof fn lemma_fourier_zero()
    ensures
        fourier(zero_poly()) == zero_poly(),
{
    let z = zero_poly();
    lemma_fourier_add(z, z);
    assert(poly_add(z, z) =~= z);
    assert forall|k: int| 0 <= k < 64 implies #[trigger] fourier(z)[k] == 0 by {
        let v = fourier(z)[k];
        crate::convolution::lemma_fourier_is_evaluation(z, k);
        crate::convolution::lemma_evaluate_range(z, crate::convolution::fourier_point(k));
        assert(v == (v + v) % 257);
    }
    assert(fourier(z) =~= z);
}

/// The transform-domain sum is the transform of the ring sum.
proof fn lemma_fourier_sum(xs: Seq<Seq<int>>, m: nat)
    requires
        m <= 16,
        all_polys(xs),
    ensures
        fourier_sum(xs, m) == fourier(naive_sum(xs, m)),
        is_poly(naive_sum(xs, m)),
    decreases m,
{
    if m == 0 {
        lemma_fourier_zero();
    } else {
        let k = (m - 1) as nat;
        lemma_fourier_sum(xs, k);
        let a = multiplier(k as int);
        let x = xs[k as int];
        assert(is_poly(a));
        lemma_fourier_ring_mul(a, x);
        lemma_ring_mul_is_poly(a, x);
        assert(hadamard(fourier(x), fourier(a)) =~= hadamard(fourier(a), fourier(x))) by {
            assert forall|j: int| 0 <= j < 64 implies #[trigger] hadamard(fourier(x), fourier(a))[j]
                == hadamard(fourier(a), fourier(x))[j] by {
                crate::arith::lemma_fmul_comm(fourier(x)[j], fourier(a)[j]);
            }
        }
        lemma_fourier_add(naive_sum(xs, k), ring_mul(a, x));
    }
}

/// Summing in the transform domain and interpolating once gives `sum_i A_i * x_i`.
pub proof fn lemma_transform_digest(xs: Seq<Seq<int>>)
    requires
        all_polys(xs),
    ensures
        interpolate(fourier_sum(xs, 16)) == naive_sum(xs, 16),
{
    lemma_fourier_sum(xs, 16);
    lemma_interpolate_fourier(naive_sum(xs, 16));
}

/// Summing products taken through the transform gives `sum_i A_i * x_i`.
pub proof fn lemma_product_sum(xs: Seq<Seq<int>>, m: nat)
    requires
        m <= 16,
        all_polys(xs),
    ensures
        product_sum(xs, m) == naive_sum(xs, m),
    decreases m,
{
    if m > 0 {
        lemma_product_sum(xs, (m - 1) as nat);
        lemma_convolution(multiplier(m - 1), xs[m - 1]);
    }
}

/// Whether `out` holds the coefficients `d`.
pub open spec fn output_holds(out: Seq<u16>, d: Seq<int>) -> bool {
    out.len() == 64 && forall|k: int| 0 <= k < 64 ==> #[trigger] out[k] as int == d[k]
}

/// Bit `p` of a block, as 0 or 1.
pub fn nth_bit(arr: &[u8], n: usize) -> (r: u8)
    requires
        n / 8 < arr@.len(),
    ensures
        r as int == input_bit(arr@, n as int),
        r <= 1,
{
    let byte = arr[n / 8];
    let shift = (n % 8) as u8;
    let r = (byte >> shift) & 1;
    assert((byte >> shift) & 1u8 <= 1u8) by (bit_vector);
    r
}

/// The multiplier polynomials `A_0, ..., A_15`.
pub fn compute_multiplier_polynomials() -> (r: [Polynomial; 16])
    ensures
        forall|i: int| 0 <= i < 16 ==> #[trigger] r@[i]@ == multiplier(i),
{
    let mut polys = [Polynomial::zero(); 16];
    for i in 0..16
        invariant
            forall|k: int| 0 <= k < i ==> #[trigger] polys@[k]@ == multiplier(k),
    {
        polys[i] = Polynomial::from_coefficients(&MULTIPLIER_POLYNOMIAL_COEFFICIENTS[i]);
        assert(polys@[i as int]@ =~= multiplier(i as int));
    }
    polys
}

/// The Fourier coefficients of the multiplier polynomials.
pub fn compute_multiplier_fourier_coefficients() -> (r: [Polynomial; 16])
    ensures
        forall|i: int| 0 <= i < 16 ==> #[trigger] r@[i]@ == fourier(multiplier(i)),
{
    let multipliers = compute_multiplier_polynomials();
    let mut out = [Polynomial::zero(); 16];
    for i in 0..16
        invariant
            forall|k: int| 0 <= k < 16 ==> #[trigger] multipliers@[k]@ == multiplier(k),
            forall|k: int| 0 <= k < i ==> #[trigger] out@[k]@ == fourier(multiplier(k)),
    {
        out[i] = multipliers[i].fourier_coefficients();
    }
    out
}

/// Parses a block into its 16 binary input polynomials.
pub fn parse_input_block(input: &Input) -> (r: SwifftInput)
    ensures
        poly_views(r@) == block_polys(input@),
{
    let mut polys = [Polynomial::zero(); 16];
    for i in 0..16
        invariant
            forall|k: int| 0 <= k < i ==> #[trigger] polys@[k]@ == input_poly(input@, k),
    {
        let mut coefficients = [Z257::zero(); 64];
        for j in 0..64
            invariant
                i < 16,
                forall|k: int|
                    0 <= k < j ==> #[trigger] coefficients@[k]@ == input_bit(input@, 64 * (i as int) + k),
        {
            let bit = nth_bit(input, 64 * i + j);
            coefficients[j] = Z257::from_u8(bit);
        }
        polys[i] = Polynomial::new(coefficients);
        assert(polys@[i as int]@ =~= input_poly(input@, i as int));
    }
    assert(poly_views(polys@) =~= block_polys(input@));
    polys
}

/// Parses a block and its sign block into 16 input polynomials with coefficients in
/// `{-1, 0, 1}`.
pub fn parse_signed_input_block(input: &Input, sign: &Input) -> (r: SwifftInput)
    ensures
        poly_views(r@) == signed_block_polys(input@, sign@),
{
    let mut polys = [Polynomial::zero(); 16];
    for i in 0..16
        invariant
            forall|k: int| 0 <= k < i ==> #[trigger] polys@[k]@ == signed_input_poly(input@, sign@, k),
    {
        let mut coefficients = [Z257::zero(); 64];
        for j in 0..64
            invariant
                i < 16,
                forall|k: int|
                    0 <= k < j ==> #[trigger] coefficients@[k]@ == (if input_bit(sign@, 64 * (i as int) + k)
                        == 0 {
                        input_bit(input@, 64 * (i as int) + k)
                    } else {
                        fneg(input_bit(input@, 64 * (i as int) + k))
                    }),
        {
            let bit = Z257::from_u8(nth_bit(input, 64 * i + j));
            if nth_bit(sign, 64 * i + j) == 0 {
                coefficients[j] = bit;
            } else {
                coefficients[j] = bit.cn_neg();
            }
        }
        polys[i] = Polynomial::new(coefficients);
        assert(polys@[i as int]@ =~= signed_input_poly(input@, sign@, i as int));
    }
    assert(poly_views(polys@) =~= signed_block_polys(input@, sign@));
    polys
}

/// `sum_i A_i * x_i` by schoolbook products.
pub fn swifft_hash_naive(input: &SwifftInput) -> (r: Polynomial)
    ensures
        r@ == naive_sum(poly_views(input@), 16),
{
    let multipliers = compute_multiplier_polynomials();
    let mut hash = Polynomial::zero();
    for i in 0..16
        invariant
            forall|k: int| 0 <= k < 16 ==> #[trigger] multipliers@[k]@ == multiplier(k),
            hash@ == naive_sum(poly_views(input@), i as nat),
    {
        let product = multipliers[i].naive_mul(&input[i]);
        hash.add_assign(&product);
    }
    hash
}

/// `sum_i A_i * x_i`, each product taken through the transform.
pub fn swifft_hash_fft_simple(input: &SwifftInput) -> (r: Polynomial)
    ensures
        r@ == naive_sum(poly_views(input@), 16),
{
    let multipliers = compute_multiplier_polynomials();
    let mut hash = Polynomial::zero();
    for i in 0..16
        invariant
            forall|k: int| 0 <= k < 16 ==> #[trigger] multipliers@[k]@ == multiplier(k),
            hash@ == product_sum(poly_views(input@), i as nat),
    {
        let product = multipliers[i].fft_mul(&input[i]);
        hash.add_assign(&product);
    }
    proof {
        lemma_product_sum(poly_views(input@), 16);
    }
    hash
}

/// `sum_i A_i * x_i`, with the multipliers' Fourier coefficients given: transform each
/// input, multiply coefficient-wise, sum, and interpolate once.
pub fn swifft_hash_with(input: &SwifftInput, multiplier_fourier: &[Polynomial; 16]) -> (r:
    Polynomial)
    requires
        forall|i: int| 0 <= i < 16 ==> #[trigger] multiplier_fourier@[i]@ == fourier(multiplier(i)),
    ensures
        r@ == naive_sum(poly_views(input@), 16),
{
    let mut digest = Polynomial::zero();
    for i in 0..16
        invariant
            forall|k: int| 0 <= k < 16 ==> #[trigger] multiplier_fourier@[k]@ == fourier(multiplier(k)),
            digest@ == fourier_sum(poly_views(input@), i as nat),
    {
        let mut product = input[i];
        product.fourier_coefficients_assign();
        product.hadamard_product_assign(&multiplier_fourier[i]);
        digest.add_assign(&product);
    }
    digest.interpolate_fourier_coefficients_assign();
    proof {
        lemma_transform_digest(poly_views(input@));
    }
    digest
}

/// The digest `sum_i A_i * x_i` of 16 input polynomials, through the transform.
pub fn swifft_hash(input: &SwifftInput) -> (r: Polynomial)
    ensures
        r@ == naive_sum(poly_views(input@), 16),
{
    let multiplier_fourier = compute_multiplier_fourier_coefficients();
    swifft_hash_with(input, &multiplier_fourier)
}

/// The coefficients of a digest polynomial.
fn to_output(d: &Polynomial) -> (r: Output)
    ensures
        output_holds(r@, d@),
{
    let mut out = [0u16; 64];
    for k in 0..64
        invariant
            forall|j: int| 0 <= j < k ==> #[trigger] out@[j] as int == d@[j],
    {
        out[k] = d.coefficient(k).value();
    }
    out
}

/// The digest of one input block.
pub fn compute(input: &Input) -> (r: Output)
    ensures
        output_holds(r@, block_digest(input@)),
{
    let polys = parse_input_block(input);
    to_output(&swifft_hash(&polys))
}

/// The digests of several input blocks: `output[i]` is the digest of `input[i]`.
pub fn compute_multiple<const NUM_BLOCKS: usize>(
    input: &[Input; NUM_BLOCKS],
    output: &mut [Output; NUM_BLOCKS],
)
    ensures
        forall|i: int|
            0 <= i < NUM_BLOCKS ==> output_holds(#[trigger] final(output)@[i]@, block_digest(input@[i]@)),
{
    let multiplier_fourier = compute_multiplier_fourier_coefficients();
    for i in 0..NUM_BLOCKS
        invariant
            forall|k: int| 0 <= k < 16 ==> #[trigger] multiplier_fourier@[k]@ == fourier(multiplier(k)),
            forall|k: int|
                0 <= k < i ==> output_holds(#[trigger] output@[k]@, block_digest(input@[k]@)),
    {
        let polys = parse_input_block(&input[i]);
        output[i] = to_output(&swifft_hash_with(&polys, &multiplier_fourier));
    }
}

/// The digest of one input block with its sign block.
pub fn compute_signed(input: &Input, sign_input: &Input) -> (r: Output)
    ensures
        output_holds(r@, signed_block_digest(input@, sign_input@)),
{
    let polys = parse_signed_input_block(input, sign_input);
    to_output(&swifft_hash(&polys))
}

/// The digests of several input blocks with their sign blocks.
pub fn compute_multiple_signed<const NUM_BLOCKS: usize>(
    input: &[Input; NUM_BLOCKS],
    sign_input: &[Input; NUM_BLOCKS],
    output: &mut [Output; NUM_BLOCKS],
)
    ensures
        forall|i: int|
            0 <= i < NUM_BLOCKS ==> output_holds(
                #[trigger] final(output)@[i]@,
                signed_block_digest(input@[i]@, sign_input@[i]@),
            ),
{
    let multiplier_fourier = compute_multiplier_fourier_coefficients();
    for i in 0..NUM_BLOCKS
        invariant
            forall|k: int| 0 <= k < 16 ==> #[trigger] multiplier_fourier@[k]@ == fourier(multiplier(k)),
            forall|k: int|
                0 <= k < i ==> output_holds(
                    #[trigger] output@[k]@,
                    signed_block_digest(input@[k]@, sign_input@[k]@),
                ),
    {
        let polys = parse_signed_input_block(&input[i], &sign_input[i]);
        output[i] = to_output(&swifft_hash_with(&polys, &multiplier_fourier));
    }
}

/// Compacts a digest to 64 bytes: byte `i` is coefficient `i` modulo 256. The value 256,
/// the only one above a byte, shares its byte with 0, so compact digests do not add.
pub fn compact(output: &Output) -> (r: CompactOutput)
    ensures
        forall|i: int| 0 <= i < 64 ==> #[trigger] r@[i] as int == output@[i] as int % 256,
{
    let mut out = [0u8; 64];
    for i in 0..64
        invariant
            forall|j: int| 0 <= j < i ==> #[trigger] out@[j] as int == output@[j] as int % 256,
    {
        out[i] = (output[i] % 256) as u8;
    }
    out
}

/// Compacts several digests.
pub fn compact_multiple<const NUM_BLOCKS: usize>(
    output: &[Output; NUM_BLOCKS],
    compact_output: &mut [CompactOutput; NUM_BLOCKS],
)
    ensures
        forall|b: int, i: int|
            0 <= b < NUM_BLOCKS && 0 <= i < 64 ==> #[trigger] final(compact_output)@[b]@[i] as int
                == output@[b]@[i] as int % 256,
{
    for b in 0..NUM_BLOCKS
        invariant
            forall|c: int, i: int|
                0 <= c < b && 0 <= i < 64 ==> #[trigger] compact_output@[c]@[i] as int
                    == output@[c]@[i] as int % 256,
    {
        compact_output[b] = compact(&output[b]);
    }
}

/// A digest on the wire: 64 little-endian 16-bit words.
pub fn digest_bytes(output: &Output) -> (r: [u8; 128])
    ensures
        forall|k: int|
            0 <= k < 64 ==> r@[2 * k] as int == #[trigger] output@[k] as int % 256 && r@[2 * k
                + 1] as int == output@[k] as int / 256,
{
    let mut out = [0u8; 128];
    for k in 0..64
        invariant
            forall|j: int|
                0 <= j < k ==> out@[2 * j] as int == #[trigger] output@[j] as int % 256 && out@[2
                    * j + 1] as int == output@[j] as int / 256,
    {
        out[2 * k] = (output[k] % 256) as u8;
        out[2 * k + 1] = (output[k] / 256) as u8;
    }
    out
}

/// A buffer of `NUM_CHUNKS` chunks of `CHUNK_SIZE` bytes.
pub struct AlignedBuffer<const CHUNK_SIZE: usize, const NUM_CHUNKS: usize>(
    pub [[u8; CHUNK_SIZE]; NUM_CHUNKS],
);

impl<const CHUNK_SIZE: usize, const NUM_CHUNKS: usize> AlignedBuffer<CHUNK_SIZE, NUM_CHUNKS> {
    /// A buffer with every byte `value`.
    pub fn new(value: u8) -> (r: Self)
        ensures
            forall|c: int, i: int|
                0 <= c < NUM_CHUNKS && 0 <= i < CHUNK_SIZE ==> #[trigger] r.0@[c]@[i] == value,
    {
        let chunk = [value; CHUNK_SIZE];
        let r = AlignedBuffer([chunk; NUM_CHUNKS]);
        r
    }
}

/// No multiplier is the zero polynomial: each has a non-zero constant coefficient.
pub proof fn lemma_multiplier_nonzero(i: int)
    requires
        0 <= i < 16,
    ensures
        multiplier(i)[0] != 0,
{
    if i == 0 {
        assert(MULTIPLIER_POLYNOMIAL_COEFFICIENTS[0][0] == 36);
    } else if i == 1 {
        assert(MULTIPLIER_POLYNOMIAL_COEFFICIENTS[1][0] == 229);
    } else if i == 2 {
        assert(MULTIPLIER_POLYNOMIAL_COEFFICIENTS[2][0] == 237);
    } else if i == 3 {
        assert(MULTIPLIER_POLYNOMIAL_COEFFICIENTS[3][0] == 112);
    } else if i == 4 {
        assert(MULTIPLIER_POLYNOMIAL_COEFFICIENTS[4][0] == 224);
    } else if i == 5 {
        assert(MULTIPLIER_POLYNOMIAL_COEFFICIENTS[5][0] == 218);
    } else if i == 6 {
        assert(MULTIPLIER_POLYNOMIAL_COEFFICIENTS[6][0] == 78);
    } else if i == 7 {
        assert(MULTIPLIER_POLYNOMIAL_COEFFICIENTS[7][0] == 227);
    } else if i == 8 {
        assert(MULTIPLIER_POLYNOMIAL_COEFFICIENTS[8][0] == 153);
    } else if i == 9 {
        assert(MULTIPLIER_POLYNOMIAL_COEFFICIENTS[9][0] == 67);
    } else if i == 10 {
        assert(MULTIPLIER_POLYNOMIAL_COEFFICIENTS[10][0] == 231);
    } else if i == 11 {
        assert(MULTIPLIER_POLYNOMIAL_COEFFICIENTS[11][0] == 63);
    } else if i == 12 {
        assert(MULTIPLIER_POLYNOMIAL_COEFFICIENTS[12][0] == 139);
    } else if i == 13 {
        assert(MULTIPLIER_POLYNOMIAL_COEFFICIENTS[13][0] == 231);
    } else if i == 14 {
        assert(MULTIPLIER_POLYNOMIAL_COEFFICIENTS[14][0] == 176);
    } else if i == 15 {
        assert(MULTIPLIER_POLYNOMIAL_COEFFICIENTS[15][0] == 24);
    }
}

} // verus!
