use swifft::fft::{best_fft, bitreverse, recursive_butterfly_arithmetic};
use swifft::polynomial::Polynomial;
use swifft::z257::Z257;

fn poly(seed: u32) -> Polynomial {
    let mut c = [0u16; 64];
    let mut s = seed.wrapping_mul(2654435761).wrapping_add(12345);
    for x in c.iter_mut() {
        s = s.wrapping_mul(1103515245).wrapping_add(12345);
        *x = ((s >> 8) % 257) as u16;
    }
    Polynomial::from_coefficients(&c)
}

fn values(p: &Polynomial) -> Vec<u16> {
    p.coefficients().iter().map(|z| z.value()).collect()
}

#[test]
fn naive_and_fft_products_agree() {
    for seed in 0..20 {
        let p = poly(seed);
        let q = poly(seed + 100);
        assert_eq!(values(&p.naive_mul(&q)), values(&p.fft_mul(&q)));
    }
    let ones = Polynomial::from_coefficients(&[1u16; 64]);
    let top = Polynomial::from_coefficients(&[256u16; 64]);
    assert_eq!(values(&ones.naive_mul(&top)), values(&ones.fft_mul(&top)));
}

#[test]
fn identities_of_the_ring() {
    for seed in 0..10 {
        let p = poly(seed);
        assert_eq!(values(&p.naive_mul(&Polynomial::one())), values(&p));
        assert_eq!(values(&p.fft_mul(&Polynomial::one())), values(&p));
        assert_eq!(values(&p.naive_mul(&Polynomial::zero())), vec![0u16; 64]);
        assert_eq!(values(&p.fft_mul(&Polynomial::zero())), vec![0u16; 64]);
        assert_eq!(values(&p.cn_add(&p.cn_neg())), vec![0u16; 64]);
        assert_eq!(values(&p.cn_sub(&p)), vec![0u16; 64]);
    }
}

#[test]
fn interpolation_inverts_fourier_coefficients() {
    for seed in 0..10 {
        let p = poly(seed);
        let back = p.fourier_coefficients().interpolate_fourier_coefficients();
        assert_eq!(values(&back), values(&p));
    }
}

#[test]
fn increment_power_is_times_alpha() {
    for seed in 0..10 {
        let p = poly(seed);
        let shifted = p.increment_power();
        assert_eq!(values(&p.naive_mul(&Polynomial::alpha())), values(&shifted));
        let c = values(&p);
        let s = values(&shifted);
        assert_eq!(s[0], (257 - c[63]) % 257);
        for i in 1..64 {
            assert_eq!(s[i], c[i - 1]);
        }
        let mut q = p;
        q.increment_power_assign();
        assert_eq!(values(&q), s);
    }
}

#[test]
fn alpha_to_the_64_is_minus_one() {
    let mut p = Polynomial::one();
    for _ in 0..64 {
        p.increment_power_assign();
    }
    let mut expected = vec![0u16; 64];
    expected[0] = 256;
    assert_eq!(values(&p), expected);
}

#[test]
fn fourier_coefficients_are_odd_power_evaluations() {
    let p = poly(7);
    let f = p.fourier_coefficients();
    let psi = Z257::new(9);
    for k in 0..64u16 {
        let point = psi.cn_pow(&Z257::new(2 * k + 1));
        assert_eq!(f.coefficients()[k as usize].value(), p.evaluate_point(&point).value());
    }
}

#[test]
fn evaluation_and_dot_product() {
    let p = Polynomial::from_coefficients(&[1u16; 64]);
    assert_eq!(p.evaluate_point(&Z257::one()).value(), 64);
    assert_eq!(p.evaluate_point(&Z257::new(256)).value(), 0);
    let q = poly(3);
    assert_eq!(q.evaluate_point(&Z257::zero()).value(), values(&q)[0]);
    let expected: u32 = values(&q).iter().map(|&v| v as u32).sum::<u32>() % 257;
    assert_eq!(q.dot_product(&p).value() as u32, expected);
    let powers = Polynomial::from_point_powers(&Z257::new(2));
    assert_eq!(values(&powers)[8], 256);
    assert_eq!(values(&powers)[16], 1);
}

#[test]
fn coefficient_wise_operations() {
    let p = poly(1);
    let q = poly(2);
    let (a, b) = (values(&p), values(&q));
    let sum = values(&p.cn_add(&q));
    let diff = values(&p.cn_sub(&q));
    let had = values(&p.hadamard_product(&q));
    let scaled = values(&p.scalar_mul(&Z257::new(3)));
    let neg = values(&p.cn_neg());
    for i in 0..64 {
        let (x, y) = (a[i] as u32, b[i] as u32);
        assert_eq!(sum[i] as u32, (x + y) % 257);
        assert_eq!(diff[i] as u32, (x + 257 - y) % 257);
        assert_eq!(had[i] as u32, x * y % 257);
        assert_eq!(scaled[i] as u32, x * 3 % 257);
        assert_eq!(neg[i] as u32, (257 - x) % 257);
    }
    let mut r = p;
    r.add_assign(&q);
    assert_eq!(values(&r), sum);
    r.sub_assign(&q);
    assert_eq!(values(&r), a);
    r.hadamard_product_assign(&q);
    assert_eq!(values(&r), had);
    let mut s = p;
    s.scalar_mul_assign(&Z257::new(3));
    assert_eq!(values(&s), scaled);
    s = p;
    s.neg_assign();
    assert_eq!(values(&s), neg);
    let mut t = p;
    t.fft_mul_assign(&q);
    assert_eq!(values(&t), values(&p.naive_mul(&q)));
}

#[test]
fn toeplitz_and_matrix_products() {
    let p = poly(11);
    let q = poly(12);
    let m = p.toeplitz_matrix();
    assert_eq!(values(&m[0]), values(&p));
    assert_eq!(values(&m[5]), values(&m[4].increment_power()));
    assert_eq!(values(&Polynomial::matrix_mul_col_vec(&m, &q)), values(&p.naive_mul(&q)));
    let row = q.matrix_mul_row_vec(&m);
    for c in 0..64 {
        assert_eq!(values(&row)[c], q.dot_product(&m[c]).value());
    }
}

#[test]
fn negated_coefficients() {
    assert_eq!(Polynomial::neg_coefficient(&0), 0);
    assert_eq!(Polynomial::neg_coefficient(&1), 256);
    assert_eq!(Polynomial::neg_coefficient(&257), 0);
    assert_eq!(Polynomial::neg_coefficient(&300), 214);
}

#[test]
fn bit_reversal() {
    assert_eq!(bitreverse(1, 6), 32);
    assert_eq!(bitreverse(6, 3), 3);
    assert_eq!(bitreverse(0b110100, 6), 0b001011);
    assert_eq!(bitreverse(5, 0), 0);
}

#[test]
fn fft_matches_the_transform_definition() {
    for log_n in 0u32..=6 {
        let n = 1usize << log_n;
        // a primitive n-th root of unity: 3^(256/n)
        let omega = Z257::new(3).cn_pow(&Z257::new((256 / n) as u16));
        let input: Vec<Z257> = (0..n).map(|i| Z257::new((i * i * 7 + 3) as u16)).collect();
        let mut a = input.clone();
        best_fft(&mut a, omega, log_n);
        for k in 0..n {
            let mut expected = 0u32;
            for j in 0..n {
                let w = omega.cn_pow(&Z257::new(((j * k) % 256) as u16)).value() as u32;
                expected = (expected + input[j].value() as u32 * w) % 257;
            }
            assert_eq!(a[k].value() as u32, expected);
        }
    }
}

#[test]
fn polynomials_from_an_input_block() {
    let mut block = [0u8; 128];
    block[0] = 0b1000_0001;
    block[127] = 0b1000_0000;
    let polys = Polynomial::from_input_block(&block);
    assert_eq!(polys.len(), 16);
    assert_eq!(values(&polys[0])[0], 1);
    assert_eq!(values(&polys[0])[7], 1);
    assert_eq!(values(&polys[0])[1], 0);
    assert_eq!(values(&polys[15])[63], 1);
    assert_eq!(values(&polys[8]), vec![0u16; 64]);
}

#[test]
fn recursive_butterflies_match_the_iterative_transform() {
    let n = 64usize;
    let omega = Z257::new(81);
    let input: Vec<Z257> = (0..n).map(|i| Z257::new((i * 31 + 5) as u16)).collect();
    let mut expected = input.clone();
    best_fft(&mut expected, omega, 6);
    let mut twiddles = Vec::new();
    let mut w = Z257::one();
    for _ in 0..n / 2 {
        twiddles.push(w);
        w = w.cn_mul(&omega);
    }
    let mut a: Vec<Z257> = (0..n).map(|k| input[bitreverse(k, 6)]).collect();
    recursive_butterfly_arithmetic(&mut a, n, 1, &twiddles);
    assert_eq!(a, expected);
    // two elements: a single butterfly with twiddle one
    let mut pair = vec![Z257::new(5), Z257::new(7)];
    recursive_butterfly_arithmetic(&mut pair, 2, 1, &[]);
    assert_eq!(pair, vec![Z257::new(12), Z257::new(255)]);
}

#[test]
fn polynomial_equality() {
    let p = poly(21);
    let q = poly(22);
    assert_eq!(p.naive_mul(&q), p.fft_mul(&q));
    assert_eq!(p, Polynomial::from_coefficients(&{
        let mut c = [0u16; 64];
        for (i, v) in values(&p).iter().enumerate() {
            c[i] = *v + 257;
        }
        c
    }));
    assert_ne!(p, q);
    assert_ne!(Polynomial::one(), Polynomial::zero());
}
