use swifft::z257::{
    Z257, LEAST_PRIMITIVE_ROOT, OMEGA_ORDER_128, OMEGA_ORDER_16, OMEGA_ORDER_2, OMEGA_ORDER_32,
    OMEGA_ORDER_4, OMEGA_ORDER_64, OMEGA_ORDER_8,
};

#[test]
fn add_neg_is_zero() {
    for v in 0u16..257 {
        let a = Z257::new(v);
        assert_eq!(a.cn_add(&a.cn_neg()).value(), 0);
    }
}

#[test]
fn mul_inv_is_one() {
    for v in 1u16..257 {
        let a = Z257::new(v);
        assert_eq!(a.cn_mul(&a.cn_inv()).value(), 1);
    }
}

#[test]
fn pow_256_is_one() {
    let e = Z257::new(256);
    for v in 1u16..257 {
        assert_eq!(Z257::new(v).cn_pow(&e).value(), 1);
    }
    assert_eq!(Z257::zero().cn_pow(&e).value(), 0);
}

#[test]
fn inverse_values() {
    assert_eq!(Z257::new(2).cn_inv().value(), 129);
    assert_eq!(Z257::new(81).cn_inv().value(), 165);
    assert_eq!(Z257::new(9).cn_inv().value(), 200);
    assert_eq!(Z257::new(64).cn_inv().value(), 253);
    assert_eq!(Z257::new(256).cn_inv().value(), 256);
}

#[test]
fn zero_has_no_inverse() {
    assert!(Z257::zero().cn_inv_checked().is_none());
    assert!(Z257::new(5).cn_checked_div(&Z257::zero()).is_none());
    let mut a = Z257::new(7);
    assert!(a.checked_div_assign(&Z257::zero()).is_none());
    assert_eq!(a.value(), 7);
    let mut z = Z257::zero();
    assert!(z.inv_assign_checked().is_none());
    assert_eq!(z.value(), 0);
}

#[test]
fn division() {
    assert_eq!(Z257::new(10).cn_div(&Z257::new(5)).value(), 2);
    assert_eq!(Z257::new(1).cn_checked_div(&Z257::new(2)).unwrap().value(), 129);
    let mut a = Z257::new(3);
    assert!(a.checked_div_assign(&Z257::new(3)).is_some());
    assert_eq!(a.value(), 1);
}

#[test]
fn constructors_reduce() {
    assert_eq!(Z257::new(257).value(), 0);
    assert_eq!(Z257::new(300).value(), 43);
    assert_eq!(Z257::new(u16::MAX).value(), 65535 % 257);
    assert_eq!(Z257::from_u64(u64::MAX).value(), (u64::MAX % 257) as u16);
    assert_eq!(Z257::from_u8(255).value(), 255);
    assert_eq!(Z257::from_bool(true).value(), 1);
    assert_eq!(Z257::from_bool(false).value(), 0);
    assert!(Z257::zero().cn_is_zero());
    assert!(Z257::one().cn_is_one());
}

#[test]
fn basic_operations() {
    let a = Z257::new(200);
    let b = Z257::new(100);
    assert_eq!(a.cn_add(&b).value(), 43);
    assert_eq!(b.cn_sub(&a).value(), 157);
    assert_eq!(a.cn_sub(&b).value(), 100);
    assert_eq!(a.cn_mul(&b).value(), (200 * 100 % 257) as u16);
    assert_eq!(Z257::zero().cn_neg().value(), 0);
    assert_eq!(Z257::one().cn_neg().value(), 256);
    assert_eq!(a.square().value(), (200 * 200 % 257) as u16);
    assert_eq!(a.double().value(), 143);
    assert_eq!(Z257::new(3).cn_pow(&Z257::new(5)).value(), 243);
}

#[test]
fn assign_operations() {
    let mut a = Z257::new(5);
    a.neg_assign();
    assert_eq!(a.value(), 252);
    a.add_assign(&Z257::new(10));
    assert_eq!(a.value(), 5);
    a.sub_assign(&Z257::new(6));
    assert_eq!(a.value(), 256);
    a.mul_assign(&Z257::new(2));
    assert_eq!(a.value(), 255);
    a.pow_assign(&Z257::new(2));
    assert_eq!(a.value(), 4);
    a.inv_assign();
    assert_eq!(a.value(), 193);
    assert!(a.inv_assign_checked().is_some());
    assert_eq!(a.value(), 4);
}

#[test]
fn roots_of_unity() {
    let two = Z257::new(2);
    let g = Z257::new(LEAST_PRIMITIVE_ROOT);
    assert_eq!(g.cn_pow(&two).value(), OMEGA_ORDER_128);
    let chain = [
        OMEGA_ORDER_128,
        OMEGA_ORDER_64,
        OMEGA_ORDER_32,
        OMEGA_ORDER_16,
        OMEGA_ORDER_8,
        OMEGA_ORDER_4,
        OMEGA_ORDER_2,
    ];
    for k in 1..chain.len() {
        assert_eq!(Z257::new(chain[k - 1]).cn_pow(&two).value(), chain[k]);
    }
    assert_eq!(OMEGA_ORDER_2, 256);
    // 3 generates the whole multiplicative group
    let mut seen = [false; 257];
    let mut x = Z257::one();
    for _ in 0..256 {
        seen[x.value() as usize] = true;
        x = x.cn_mul(&g);
    }
    assert_eq!(seen.iter().filter(|b| **b).count(), 256);
}

#[test]
fn precomputed_tables() {
    let pow = Z257::compute_pow();
    assert_eq!(pow.len(), 257);
    assert_eq!(pow[3][5], 243);
    assert_eq!(pow[0][0], 1);
    assert_eq!(pow[2][8], 256);
    assert_eq!(pow[81][32], 256);
    let inv = Z257::compute_invert();
    assert_eq!(inv[0], 0);
    for n in 1..257usize {
        assert_eq!(n as u32 * inv[n] as u32 % 257, 1);
        assert_eq!(inv[n], pow[n][255]);
    }
    let sqrt = Z257::compute_sqrt();
    let mut squares = 0;
    for n in 0..257u32 {
        match sqrt[n as usize] {
            Some(m) => {
                squares += 1;
                assert_eq!(m as u32 * m as u32 % 257, n);
                assert!((m as u32 + 1..257).all(|k| k * k % 257 != n));
            }
            None => assert!((0..257u32).all(|k| k * k % 257 != n)),
        }
    }
    assert_eq!(squares, 129);
    assert_eq!(sqrt[81], Some(248));
    assert_eq!(sqrt[3], None);
}
