use swifft::hash::{
    compact, compact_multiple, compute, compute_multiple, compute_multiple_signed,
    compute_multiplier_polynomials, compute_signed, digest_bytes, nth_bit, parse_input_block,
    parse_signed_input_block, swifft_hash, swifft_hash_fft_simple, swifft_hash_naive,
    AlignedBuffer, Input, Output, INPUT_BLOCK_SIZE, MULTIPLIER_POLYNOMIAL_COEFFICIENTS,
};
use swifft::polynomial::Polynomial;

fn block(seed: u32) -> Input {
    let mut b = [0u8; 128];
    let mut s = seed.wrapping_mul(2654435761).wrapping_add(7);
    for x in b.iter_mut() {
        s = s.wrapping_mul(1103515245).wrapping_add(12345);
        *x = (s >> 16) as u8;
    }
    b
}

fn values(p: &Polynomial) -> Vec<u16> {
    p.coefficients().iter().map(|z| z.value()).collect()
}

fn multiplier(i: usize) -> Polynomial {
    Polynomial::from_coefficients(&MULTIPLIER_POLYNOMIAL_COEFFICIENTS[i])
}

fn ones_expected() -> Vec<u16> {
    let ones = Polynomial::from_coefficients(&[1u16; 64]);
    let mut sum = Polynomial::zero();
    for i in 0..16 {
        sum = sum.cn_add(&multiplier(i).naive_mul(&ones));
    }
    values(&sum)
}

fn with_bit(p: usize) -> Input {
    let mut b = [0u8; 128];
    b[p / 8] |= 1 << (p % 8);
    b
}

#[test]
fn zero_block_gives_zero_digest() {
    assert_eq!(compute(&[0u8; 128]).to_vec(), vec![0u16; 64]);
}

#[test]
fn ones_block_gives_sum_of_multipliers_times_ones() {
    assert_eq!(compute(&[0xffu8; 128]).to_vec(), ones_expected());
}

#[test]
fn first_bit_gives_first_multiplier() {
    assert_eq!(compute(&with_bit(0)).to_vec(), values(&multiplier(0)));
}

#[test]
fn bit_64_gives_second_multiplier() {
    assert_eq!(compute(&with_bit(64)).to_vec(), values(&multiplier(1)));
}

#[test]
fn top_bit_gives_last_multiplier_times_alpha_63() {
    let mut alpha63 = [0u16; 64];
    alpha63[63] = 1;
    let expected = multiplier(15).naive_mul(&Polynomial::from_coefficients(&alpha63));
    assert_eq!(compute(&with_bit(8 * INPUT_BLOCK_SIZE - 1)).to_vec(), values(&expected));
}

#[test]
fn signed_all_negative_gives_negated_sum() {
    let expected: Vec<u16> = ones_expected().iter().map(|&v| (257 - v) % 257).collect();
    assert_eq!(compute_signed(&[0xffu8; 128], &[0xffu8; 128]).to_vec(), expected);
}

#[test]
fn every_bit_changes_the_digest() {
    for seed in 0..2 {
        let x = block(seed);
        let d = compute(&x);
        for p in 0..1024 {
            let mut y = x;
            y[p / 8] ^= 1 << (p % 8);
            assert_ne!(compute(&y), d);
        }
    }
}

#[test]
fn signed_semantics() {
    let x = block(3);
    // all sign bits clear: the unsigned digest
    assert_eq!(compute_signed(&x, &[0u8; 128]), compute(&x));
    // signs where the input bit is zero change nothing
    let mut sign = [0u8; 128];
    for i in 0..128 {
        sign[i] = !x[i];
    }
    assert_eq!(compute_signed(&x, &sign), compute(&x));
    // the zero block ignores every sign
    assert_eq!(compute_signed(&[0u8; 128], &block(4)).to_vec(), vec![0u16; 64]);
    // a set sign bit on a set input bit negates that contribution
    let mut s0 = [0u8; 128];
    s0[0] = 1;
    let expected: Vec<u16> = values(&multiplier(0)).iter().map(|&v| (257 - v) % 257).collect();
    assert_eq!(compute_signed(&with_bit(0), &s0).to_vec(), expected);
}

#[test]
fn xor_of_inputs_is_not_sum_of_digests() {
    let mut differing = 0;
    for seed in 0..8 {
        let x = block(seed);
        let y = block(seed + 50);
        let mut z = [0u8; 128];
        for i in 0..128 {
            z[i] = x[i] ^ y[i];
        }
        let (dx, dy, dz) = (compute(&x), compute(&y), compute(&z));
        let sum: Vec<u16> = (0..64).map(|k| ((dx[k] as u32 + dy[k] as u32) % 257) as u16).collect();
        if dz.to_vec() != sum {
            differing += 1;
        }
    }
    assert_eq!(differing, 8);
}

#[test]
fn digests_add_over_disjoint_inputs() {
    let x = block(9);
    let mut a = [0u8; 128];
    let mut b = [0u8; 128];
    for i in 0..128 {
        a[i] = x[i] & 0x0f;
        b[i] = x[i] & 0xf0;
    }
    let (dx, da, db) = (compute(&x), compute(&a), compute(&b));
    for k in 0..64 {
        assert_eq!(dx[k] as u32, (da[k] as u32 + db[k] as u32) % 257);
    }
}

#[test]
fn batch_equals_single() {
    let inputs = [block(1), block(2), block(3), [0xffu8; 128]];
    let signs = [block(5), [0u8; 128], block(6), [0xffu8; 128]];
    let mut out: [Output; 4] = [[0u16; 64]; 4];
    compute_multiple(&inputs, &mut out);
    let mut signed_out: [Output; 4] = [[0u16; 64]; 4];
    compute_multiple_signed(&inputs, &signs, &mut signed_out);
    for i in 0..4 {
        assert_eq!(out[i], compute(&inputs[i]));
        assert_eq!(signed_out[i], compute_signed(&inputs[i], &signs[i]));
    }
    let mut compact_out = [[0u8; 64]; 4];
    compact_multiple(&out, &mut compact_out);
    for i in 0..4 {
        assert_eq!(compact_out[i], compact(&out[i]));
    }
}

#[test]
fn three_hash_paths_agree() {
    for seed in 0..4 {
        let polys = parse_input_block(&block(seed));
        let fast = values(&swifft_hash(&polys));
        assert_eq!(values(&swifft_hash_naive(&polys)), fast);
        assert_eq!(values(&swifft_hash_fft_simple(&polys)), fast);
    }
}

#[test]
fn parsing_reads_bits_least_significant_first() {
    let mut b = [0u8; 128];
    b[0] = 0b0000_0101;
    b[9] = 0b1000_0000;
    let polys = parse_input_block(&b);
    assert_eq!(polys[0].coefficients()[0].value(), 1);
    assert_eq!(polys[0].coefficients()[1].value(), 0);
    assert_eq!(polys[0].coefficients()[2].value(), 1);
    assert_eq!(polys[1].coefficients()[15].value(), 1);
    assert_eq!(nth_bit(&b, 79), 1);
    assert_eq!(nth_bit(&b, 78), 0);
    let mut sign = [0u8; 128];
    sign[0] = 0b0000_0011;
    let signed = parse_signed_input_block(&b, &sign);
    assert_eq!(signed[0].coefficients()[0].value(), 256);
    assert_eq!(signed[0].coefficients()[1].value(), 0);
    assert_eq!(signed[0].coefficients()[2].value(), 1);
}

#[test]
fn multiplier_polynomials_match_the_table() {
    let polys = compute_multiplier_polynomials();
    for i in 0..16 {
        for j in 0..64 {
            assert_eq!(polys[i].coefficients()[j].value(), MULTIPLIER_POLYNOMIAL_COEFFICIENTS[i][j] % 257);
        }
    }
    assert_eq!(&MULTIPLIER_POLYNOMIAL_COEFFICIENTS[0][..4], &[36, 100, 13, 171]);
}

#[test]
fn compaction_keeps_low_bytes() {
    let mut d = [0u16; 64];
    for k in 0..64 {
        d[k] = (k as u16 * 37 + 200) % 257;
    }
    d[3] = 256;
    let c = compact(&d);
    for k in 0..64 {
        assert_eq!(c[k] as u16, d[k] % 256);
    }
    assert_eq!(c[3], 0);
    let digest = compute(&block(2));
    assert_eq!(compact(&digest).len(), 64);
}

#[test]
fn digest_wire_format() {
    let mut d = [0u16; 64];
    d[0] = 256;
    d[1] = 255;
    d[63] = 1;
    let bytes = digest_bytes(&d);
    assert_eq!(bytes[0], 0);
    assert_eq!(bytes[1], 1);
    assert_eq!(bytes[2], 255);
    assert_eq!(bytes[3], 0);
    assert_eq!(bytes[126], 1);
    assert_eq!(bytes[127], 0);
    for k in 0..64 {
        assert!(compute(&block(8))[k] < 257);
    }
}

#[test]
fn buffer_is_filled() {
    let b: AlignedBuffer<128, 2> = AlignedBuffer::new(7);
    assert!(b.0.iter().all(|chunk| chunk.iter().all(|&x| x == 7)));
}
