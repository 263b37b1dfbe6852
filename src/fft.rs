//! The in-place iterative transform and its recursive butterfly network.
use crate::arith::{canonical, fadd, fmul, fsub, lemma_fmul_comm, zpow};
use crate::transform::{
    dft, level, lemma_first_stage, lemma_last_stage, lemma_rev_bounds, lemma_stage, rev,
};
use crate::z257::{lemma_z257_canonical, Z257};
use vstd::arithmetic::div_mod::{lemma_div_denominator, lemma_small_mod};
use vstd::arithmetic::power2::{
    lemma2_to64, lemma_pow2_adds, lemma_pow2_pos, lemma_pow2_strictly_increases,
    lemma_pow2_unfold, pow2,
};
use vstd::prelude::*;

verus! {

broadcast use lemma_z257_canonical;

/// The canonical representatives of a sequence of field elements.
pub open spec fn values(a: Seq<Z257>) -> Seq<int> {
    a.map_values(|z: Z257| z@)
}

/// `n` with its lowest `l` bits in reverse order.
pub fn bitreverse(n: usize, l: usize) -> (r: usize)
    requires
        pow2(l as nat) <= usize::MAX,
    ensures
        r as int == rev(n as int, l as nat),
        (r as int) < pow2(l as nat),
{
    let mut r: usize = 0;
    let mut m: usize = n;
    let mut i: usize = 0;
    proof {
        lemma2_to64();
    }
    while i < l
        invariant
            i <= l,
            pow2(l as nat) <= usize::MAX,
            r as int == rev(n as int, i as nat),
            m as int == n as int / pow2(i as nat) as int,
            (r as int) < pow2(i as nat),
        decreases l - i,
    {
        proof {
            lemma_pow2_unfold((i + 1) as nat);
            lemma_pow2_pos(i as nat);
            lemma_div_denominator(n as int, pow2(i as nat) as int, 2);
            if i + 1 < l {
                lemma_pow2_strictly_increases((i + 1) as nat, l as nat);
            }
        }
        r = 2 * r + m % 2;
        m = m / 2;
        i = i + 1;
    }
    r
}

/// The length-`2^log_n` cyclic transform, in place, with root `omega`:
/// afterwards `a[k] = sum_j a_old[j] * omega^(jk)`.
///
/// Iterative Cooley-Tukey, decimation in time: a bit-reversal permutation, then `log_n`
/// stages of butterflies over chunks of doubling size.
pub fn best_fft(a: &mut [Z257], omega: Z257, log_n: u32)
    requires
        old(a)@.len() == pow2(log_n as nat),
        log_n > 0 ==> zpow(omega@, pow2((log_n - 1) as nat)) == 256,
    ensures
        values(final(a)@) == dft(values(old(a)@), omega@),
{
    let n = a.len();
    let ghost x = values(a@);
    let ghost l = log_n as nat;
    let ghost w = omega@;
    // bit-reversal permutation
    let mut src: Vec<Z257> = Vec::new();
    for k in 0..n
        invariant
            n == a@.len(),
            x == values(a@),
            src@ == a@.subrange(0, k as int),
    {
        src.push(a[k]);
    }
    assert(src@ =~= a@.subrange(0, n as int));
    for k in 0..n
        invariant
            n == a@.len(),
            n == pow2(l),
            l == log_n,
            values(src@) == x,
            src@.len() == n,
            forall|p: int| 0 <= p < k ==> #[trigger] a@[p]@ == x[rev(p, l)],
    {
        let rk = bitreverse(k, log_n as usize);
        a[k] = src[rk];
    }
    assert forall|p: int| 0 <= p < n implies #[trigger] a@[p]@ == level(x, w, l, 0, p) by {
        lemma_rev_bounds(p, l);
        lemma_first_stage(x, w, l, p);
    }
    // twiddle factors omega^0, ..., omega^(n/2 - 1)
    let half_n = n / 2;
    let mut twiddles: Vec<Z257> = Vec::new();
    let mut power = Z257::one();
    proof {
        reveal_with_fuel(zpow, 1);
    }
    for j in 0..half_n
        invariant
            twiddles@.len() == j,
            power@ == zpow(w, j as nat),
            w == omega@,
            forall|m: int| 0 <= m < j ==> #[trigger] twiddles@[m]@ == zpow(w, m as nat),
    {
        twiddles.push(power);
        proof {
            lemma_fmul_comm(power@, w);
        }
        power = power.cn_mul(&omega);
    }
    // butterfly stages
    let mut half: usize = 1;
    let mut twiddle_chunk: usize = half_n;
    let mut s: u32 = 0;
    proof {
        lemma2_to64();
        if l > 0 {
            lemma_pow2_unfold(l);
        }
    }
    while s < log_n
        invariant
            s <= log_n,
            l == log_n,
            w == omega@,
            n == a@.len(),
            n == pow2(l),
            half_n == n / 2,
            log_n > 0 ==> zpow(w, pow2((log_n - 1) as nat)) == 256,
            l > 0 ==> n == 2 * pow2((l - 1) as nat),
            twiddles@.len() == half_n,
            forall|m: int| 0 <= m < half_n ==> #[trigger] twiddles@[m]@ == zpow(w, m as nat),
            half == pow2(s as nat),
            s < log_n ==> twiddle_chunk == pow2((l - s - 1) as nat),
            forall|p: int| 0 <= p < n ==> #[trigger] a@[p]@ == level(x, w, l, s as nat, p),
        decreases log_n - s,
    {
        let ghost t = pow2((l - s - 1) as nat) as int;
        proof {
            lemma_pow2_adds(s as nat + 1, (l - s - 1) as nat);
            assert(s as nat + 1 + (l - s - 1) as nat == l);
            lemma_pow2_unfold(s as nat + 1);
            lemma_pow2_pos((l - s - 1) as nat);
            lemma_pow2_pos(s as nat);
            lemma_pow2_adds(s as nat, (l - s - 1) as nat);
            assert(s as nat + (l - s - 1) as nat == (l - 1) as nat);
            assert(2 * half <= n) by (nonlinear_arith)
                requires
                    n == 2 * half * t,
                    t > 0,
            ;
        }
        let chunk = 2 * half;
        let mut b: usize = 0;
        let ghost mut q: int = 0;
        while b < n
            invariant
                s < log_n,
                l == log_n,
                w == omega@,
                log_n > 0 ==> zpow(w, pow2((log_n - 1) as nat)) == 256,
                n == a@.len(),
                n == chunk * t,
                half_n == half * t,
                t == pow2((l - s - 1) as nat),
                t > 0,
                half == pow2(s as nat),
                chunk == 2 * half,
                chunk > 0,
                twiddle_chunk == t,
                twiddles@.len() == half_n,
                forall|m: int| 0 <= m < half_n ==> #[trigger] twiddles@[m]@ == zpow(w, m as nat),
                b == q * chunk,
                0 <= q <= t,
                forall|p: int|
                    0 <= p < n ==> #[trigger] a@[p]@ == (if p < b {
                        level(x, w, l, (s + 1) as nat, p)
                    } else {
                        level(x, w, l, s as nat, p)
                    }),
            decreases n - b,
        {
            proof {
                assert(q < t) by (nonlinear_arith)
                    requires
                        b == q * chunk,
                        b < n,
                        n == chunk * t,
                        chunk > 0,
                ;
                assert(b + chunk <= n) by (nonlinear_arith)
                    requires
                        b == q * chunk,
                        q < t,
                        n == chunk * t,
                ;
            }
            let mut i: usize = 0;
            while i < half
                invariant
                    s < log_n,
                    l == log_n,
                    w == omega@,
                    log_n > 0 ==> zpow(w, pow2((log_n - 1) as nat)) == 256,
                    n == a@.len(),
                    half == pow2(s as nat),
                    chunk == 2 * half,
                    b + chunk <= n,
                    b == q * chunk,
                    0 <= q,
                    i <= half,
                    t > 0,
                    half_n == half * t,
                    twiddle_chunk == t,
                    t == pow2((l - s - 1) as nat),
                    twiddles@.len() == half_n,
                    forall|m: int|
                        0 <= m < half_n ==> #[trigger] twiddles@[m]@ == zpow(w, m as nat),
                    forall|p: int|
                        0 <= p < n ==> #[trigger] a@[p]@ == (if p < b + i || (b + half <= p < b
                            + half + i) {
                            level(x, w, l, (s + 1) as nat, p)
                        } else {
                            level(x, w, l, s as nat, p)
                        }),
                decreases half - i,
            {
                proof {
                    lemma_stage(x, w, l, s as nat, q, i as int);
                    assert(i * t < half_n) by (nonlinear_arith)
                        requires
                            i < half,
                            half_n == half * t,
                            t > 0,
                    ;
                }
                let tw = twiddles[i * twiddle_chunk];
                let v = a[b + half + i].cn_mul(&tw);
                let u = a[b + i];
                a[b + i] = u.cn_add(&v);
                a[b + half + i] = u.cn_sub(&v);
                i = i + 1;
            }
            b = b + chunk;
            proof {
                q = q + 1;
                assert(b == q * chunk) by (nonlinear_arith)
                    requires
                        b == (q - 1) * chunk + chunk,
                ;
            }
        }
        proof {
            assert(b == n) by (nonlinear_arith)
                requires
                    b == q * chunk,
                    b >= n,
                    q <= t,
                    n == chunk * t,
            ;
            if s + 1 < log_n {
                lemma_pow2_unfold((l - s - 1) as nat);
                assert((l - s - 1 - 1) as nat == (l - (s + 1) - 1) as nat);
            }
            lemma_pow2_unfold(s as nat + 1);
        }
        half = chunk;
        twiddle_chunk = twiddle_chunk / 2;
        s = s + 1;
    }
    proof {
        assert forall|p: int| 0 <= p < n implies #[trigger] values(a@)[p] == dft(x, w)[p] by {
            lemma_last_stage(x, w, l, p);
        }
        assert(values(a@) =~= dft(x, w));
    }
}

/// The twiddle a butterfly at offset `k` uses: one at offset 0, else `twiddles[k * stride]`.
pub open spec fn twiddle_at(twiddles: Seq<Z257>, k: int, stride: int) -> int {
    if k == 0 {
        1
    } else {
        twiddles[k * stride]@
    }
}

/// The radix-2 butterfly network on input in bit-reversed order: both halves go through
/// the network with twice the twiddle stride, then each pair `(e[k], o[k])` becomes
/// `(e[k] + t o[k], e[k] - t o[k])` with `t = twiddle_at(twiddles, k, stride)`.
pub open spec fn butterfly_network(y: Seq<int>, twiddles: Seq<Z257>, stride: int) -> Seq<int>
    decreases y.len(),
{
    if y.len() <= 1 {
        y
    } else {
        let h = y.len() / 2;
        let e = butterfly_network(y.subrange(0, h as int), twiddles, 2 * stride);
        let o = butterfly_network(y.subrange(h as int, y.len() as int), twiddles, 2 * stride);
        Seq::new(
            y.len(),
            |k: int|
                if k < h {
                    fadd(e[k], fmul(o[k], twiddle_at(twiddles, k, stride)))
                } else {
                    fsub(e[k - h], fmul(o[k - h], twiddle_at(twiddles, k - h, stride)))
                },
        )
    }
}

/// The butterfly stages of the transform on `a` (of length `n`, a power of two), by
/// recursion on the two halves, which use every second twiddle.
pub fn recursive_butterfly_arithmetic(
    a: &mut [Z257],
    n: usize,
    twiddle_chunk: usize,
    twiddles: &[Z257],
)
    requires
        n >= 2,
        old(a)@.len() == n,
        exists|l: nat| pow2(l) == n,
        n > 2 ==> (n / 2 - 1) * twiddle_chunk < twiddles@.len(),
        (n / 2) * twiddle_chunk <= usize::MAX,
    ensures
        final(a)@.len() == n,
        values(final(a)@) == butterfly_network(values(old(a)@), twiddles@, twiddle_chunk as int),
    decreases n,
{
    let ghost y = values(a@);
    let h = n / 2;
    proof {
        lemma_power_of_two_halves(n as int);
    }
    if n == 2 {
        let t = a[1];
        let u = a[0];
        a[0] = u.cn_add(&t);
        a[1] = u.cn_sub(&t);
        proof {
            reveal_with_fuel(butterfly_network, 2);
            assert(canonical(t@));
            lemma_small_mod(t@ as nat, 257);
            assert(fmul(t@, 1) == t@);
            assert(values(a@) =~= butterfly_network(y, twiddles@, twiddle_chunk as int));
        }
    } else {
        proof {
            assert((h / 2) * (twiddle_chunk * 2) == h * twiddle_chunk) by (nonlinear_arith)
                requires
                    h % 2 == 0,
            ;
            assert(twiddle_chunk * 2 <= h * twiddle_chunk) by (nonlinear_arith)
                requires
                    h >= 2,
                    twiddle_chunk >= 0,
            ;
            assert((h / 2 - 1) * (twiddle_chunk * 2) <= (h - 1) * twiddle_chunk) by (nonlinear_arith)
                requires
                    h >= 2,
                    h % 2 == 0,
                    twiddle_chunk >= 0,
            ;
        }
        let (left, right) = a.split_at_mut(h);
        recursive_butterfly_arithmetic(left, h, twiddle_chunk * 2, twiddles);
        recursive_butterfly_arithmetic(right, h, twiddle_chunk * 2, twiddles);
        let ghost e = values(left@);
        let ghost o = values(right@);
        // the first pair has twiddle one
        let t = right[0];
        let u = left[0];
        left[0] = u.cn_add(&t);
        right[0] = u.cn_sub(&t);
        proof {
            assert(canonical(t@));
            lemma_small_mod(t@ as nat, 257);
        }
        let mut i: usize = 1;
        while i < h
            invariant
                h == n / 2,
                h >= 2,
                left@.len() == h,
                right@.len() == h,
                1 <= i <= h,
                (h - 1) * twiddle_chunk < twiddles@.len(),
                h * twiddle_chunk <= usize::MAX,
                forall|k: int|
                    0 <= k < h ==> #[trigger] left@[k]@ == (if k < i {
                        fadd(e[k], fmul(o[k], twiddle_at(twiddles@, k, twiddle_chunk as int)))
                    } else {
                        e[k]
                    }),
                forall|k: int|
                    0 <= k < h ==> #[trigger] right@[k]@ == (if k < i {
                        fsub(e[k], fmul(o[k], twiddle_at(twiddles@, k, twiddle_chunk as int)))
                    } else {
                        o[k]
                    }),
            decreases h - i,
        {
            proof {
                assert(i * twiddle_chunk <= (h - 1) * twiddle_chunk) by (nonlinear_arith)
                    requires
                        0 <= i < h,
                        twiddle_chunk >= 0,
                ;
                assert((h - 1) * twiddle_chunk <= h * twiddle_chunk) by (nonlinear_arith)
                    requires
                        twiddle_chunk >= 0,
                ;
            }
            let v = right[i].cn_mul(&twiddles[i * twiddle_chunk]);
            let u = left[i];
            left[i] = u.cn_add(&v);
            right[i] = u.cn_sub(&v);
            i = i + 1;
        }
        proof {
            assert(y.subrange(0, h as int) =~= values(old(a)@.subrange(0, h as int)));
            assert(y.subrange(h as int, n as int) =~= values(old(a)@.subrange(h as int, n as int)));
            assert(values(left@ + right@) =~= butterfly_network(y, twiddles@, twiddle_chunk as int));
        }
    }
}

/// A power of two of at least 2 is even, and so is its half when that is at least 2.
proof fn lemma_power_of_two_halves(n: int)
    requires
        n >= 2,
        exists|l: nat| pow2(l) == n,
    ensures
        n % 2 == 0,
        n / 2 >= 2 ==> exists|l: nat| pow2(l) == n / 2,
        n / 2 >= 2 ==> (n / 2) % 2 == 0,
{
    let l = choose|l: nat| pow2(l) == n;
    lemma2_to64();
    assert(l != 0);
    lemma_pow2_unfold(l);
    assert(pow2((l - 1) as nat) == n / 2);
    if n / 2 >= 2 {
        let k = (l - 1) as nat;
        assert(k != 0);
        lemma_pow2_unfold(k);
    }
}

} // verus!
