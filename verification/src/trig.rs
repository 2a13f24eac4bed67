//! Fixed-point trigonometry for the haversine distance: sine, cosine and
//! arcsine by truncated series, and an integer square root. All values are
//! scaled by 1e9 (an angle of x means x / 1e9 radians; a sine of s means
//! s / 1e9), so every step is exact integer arithmetic with a spec mirror.

use vstd::prelude::*;

use vstd::arithmetic::div_mod::lemma_div_is_ordered;

verus! {

pub(crate) proof fn lemma_mul_le(a: int, b: int, x: int, y: int)
    requires
        0 <= a,
        a <= x,
        0 <= b,
        b <= y,
    ensures
        a * b <= x * y,
{
    assert(a * b <= x * y) by (nonlinear_arith)
        requires
            0 <= a,
            a <= x,
            0 <= b,
            b <= y,
    ;
}

/// For `a <= cap` and `b` at most one scale unit, bounds `a * b`, its
/// rescaling, and a further division by `d`.
pub(crate) proof fn lemma_term_bound(a: int, b: int, cap: int, d: int)
    requires
        0 <= a,
        a <= cap,
        0 <= b,
        b <= 1_000_000_000,
        0 < d,
    ensures
        a * b <= cap * 1_000_000_000,
        a * b / 1_000_000_000 <= cap,
        a * b / 1_000_000_000 / d <= cap / d,
{
    lemma_mul_le(a, b, cap, 1_000_000_000);
    lemma_div_is_ordered(a * b, cap * 1_000_000_000, 1_000_000_000);
    assert(cap * 1_000_000_000 / 1_000_000_000 == cap) by (nonlinear_arith)
        requires
            cap >= 0,
    ;
    lemma_div_is_ordered(a * b / 1_000_000_000, cap, d);
}

/// A nonnegative number whose square is at most 5e17 is at most the
/// integer square root of 5e17.
pub(crate) proof fn lemma_sq_le_half_scale(z: int, n: int)
    requires
        0 <= z,
        z * z <= n,
        n <= 500_000_000_000_000_000,
    ensures
        z <= 707_106_781,
{
    if z >= 707_106_782 {
        assert(z * z >= 707_106_782 * 707_106_782) by (nonlinear_arith)
            requires
                z >= 707_106_782,
        ;
    }
}

/// Binary search for the integer square root, mirrored by `spec_isqrt`.
pub open spec fn spec_isqrt_rec(n: int, lo: int, hi: int) -> int
    decreases hi - lo,
{
    if hi - lo <= 1 {
        lo
    } else {
        let mid = lo + (hi - lo) / 2;
        if mid * mid <= n {
            spec_isqrt_rec(n, mid, hi)
        } else {
            spec_isqrt_rec(n, lo, mid)
        }
    }
}

pub open spec fn spec_isqrt(n: int) -> int {
    spec_isqrt_rec(n, 0, 1_500_000_000)
}

/// The greatest `r` with `r * r <= n`, for `n` up to 2e18.
pub fn isqrt(n: u64) -> (r: u64)
    requires
        n <= 2_000_000_000_000_000_000,
    ensures
        r as int == spec_isqrt(n as int),
        (r as int) * (r as int) <= n as int,
        (r as int + 1) * (r as int + 1) > n as int,
        r < 1_500_000_000,
{
    let mut lo: u64 = 0;
    let mut hi: u64 = 1_500_000_000;
    proof {
        assert((1_500_000_000int) * (1_500_000_000int) > 2_000_000_000_000_000_000int)
            by (nonlinear_arith);
    }
    while lo + 1 < hi
        invariant
            n <= 2_000_000_000_000_000_000,
            lo < hi,
            hi <= 1_500_000_000,
            (lo as int) * (lo as int) <= n as int,
            (hi as int) * (hi as int) > n as int,
            spec_isqrt_rec(n as int, lo as int, hi as int) == spec_isqrt(n as int),
        decreases hi - lo,
    {
        let mid: u64 = lo + (hi - lo) / 2;
        proof {
            lemma_mul_le(mid as int, mid as int, 1_500_000_000, 1_500_000_000);
        }
        if mid * mid <= n {
            lo = mid;
        } else {
            hi = mid;
        }
    }
    lo
}

/// Sine of an angle in [0, pi/2], by the first seven terms of its series
/// in nested form, clamped to one scale unit.
pub open spec fn spec_sin9(x: int) -> int {
    let x2 = x * x / 1_000_000_000;
    let t5 = 1_000_000_000 - x2 / 156;
    let t4 = 1_000_000_000 - x2 * t5 / 1_000_000_000 / 110;
    let t3 = 1_000_000_000 - x2 * t4 / 1_000_000_000 / 72;
    let t2 = 1_000_000_000 - x2 * t3 / 1_000_000_000 / 42;
    let t1 = 1_000_000_000 - x2 * t2 / 1_000_000_000 / 20;
    let t0 = 1_000_000_000 - x2 * t1 / 1_000_000_000 / 6;
    let s = x * t0 / 1_000_000_000;
    if s > 1_000_000_000 {
        1_000_000_000
    } else {
        s
    }
}

pub fn sin9(x: u64) -> (r: u64)
    requires
        x <= 1_570_796_327,
    ensures
        r as int == spec_sin9(x as int),
        r <= 1_000_000_000,
{
    proof {
        lemma_mul_le(x as int, x as int, 1_570_796_327, 1_570_796_327);
        lemma_div_is_ordered((x as int) * (x as int), 2_467_401_100_916_690_929, 1_000_000_000);
    }
    let x2: u64 = x * x / 1_000_000_000;
    proof {
        lemma_div_is_ordered(x2 as int, 2_467_401_100, 156);
    }
    let t5: u64 = 1_000_000_000 - x2 / 156;
    proof {
        lemma_term_bound(x2 as int, t5 as int, 2_467_401_100, 110);
    }
    let t4: u64 = 1_000_000_000 - x2 * t5 / 1_000_000_000 / 110;
    proof {
        lemma_term_bound(x2 as int, t4 as int, 2_467_401_100, 72);
    }
    let t3: u64 = 1_000_000_000 - x2 * t4 / 1_000_000_000 / 72;
    proof {
        lemma_term_bound(x2 as int, t3 as int, 2_467_401_100, 42);
    }
    let t2: u64 = 1_000_000_000 - x2 * t3 / 1_000_000_000 / 42;
    proof {
        lemma_term_bound(x2 as int, t2 as int, 2_467_401_100, 20);
    }
    let t1: u64 = 1_000_000_000 - x2 * t2 / 1_000_000_000 / 20;
    proof {
        lemma_term_bound(x2 as int, t1 as int, 2_467_401_100, 6);
    }
    let t0: u64 = 1_000_000_000 - x2 * t1 / 1_000_000_000 / 6;
    proof {
        lemma_term_bound(x as int, t0 as int, 1_570_796_327, 1);
    }
    let s: u64 = x * t0 / 1_000_000_000;
    if s > 1_000_000_000 {
        1_000_000_000
    } else {
        s
    }
}

/// Cosine of an angle in [0, pi/2], by the first seven terms of its series
/// in nested form, saturating at zero.
pub open spec fn spec_cos9(x: int) -> int {
    let x2 = x * x / 1_000_000_000;
    let t5 = 1_000_000_000 - x2 / 132;
    let t4 = 1_000_000_000 - x2 * t5 / 1_000_000_000 / 90;
    let t3 = 1_000_000_000 - x2 * t4 / 1_000_000_000 / 56;
    let t2 = 1_000_000_000 - x2 * t3 / 1_000_000_000 / 30;
    let t1 = 1_000_000_000 - x2 * t2 / 1_000_000_000 / 12;
    let sub = x2 * t1 / 1_000_000_000 / 2;
    if sub > 1_000_000_000 {
        0
    } else {
        1_000_000_000 - sub
    }
}

pub fn cos9(x: u64) -> (r: u64)
    requires
        x <= 1_570_796_327,
    ensures
        r as int == spec_cos9(x as int),
        r <= 1_000_000_000,
{
    proof {
        lemma_mul_le(x as int, x as int, 1_570_796_327, 1_570_796_327);
        lemma_div_is_ordered((x as int) * (x as int), 2_467_401_100_916_690_929, 1_000_000_000);
    }
    let x2: u64 = x * x / 1_000_000_000;
    proof {
        lemma_div_is_ordered(x2 as int, 2_467_401_100, 132);
    }
    let t5: u64 = 1_000_000_000 - x2 / 132;
    proof {
        lemma_term_bound(x2 as int, t5 as int, 2_467_401_100, 90);
    }
    let t4: u64 = 1_000_000_000 - x2 * t5 / 1_000_000_000 / 90;
    proof {
        lemma_term_bound(x2 as int, t4 as int, 2_467_401_100, 56);
    }
    let t3: u64 = 1_000_000_000 - x2 * t4 / 1_000_000_000 / 56;
    proof {
        lemma_term_bound(x2 as int, t3 as int, 2_467_401_100, 30);
    }
    let t2: u64 = 1_000_000_000 - x2 * t3 / 1_000_000_000 / 30;
    proof {
        lemma_term_bound(x2 as int, t2 as int, 2_467_401_100, 12);
    }
    let t1: u64 = 1_000_000_000 - x2 * t2 / 1_000_000_000 / 12;
    proof {
        lemma_term_bound(x2 as int, t1 as int, 2_467_401_100, 2);
    }
    let sub: u64 = x2 * t1 / 1_000_000_000 / 2;
    if sub > 1_000_000_000 {
        0
    } else {
        1_000_000_000 - sub
    }
}

/// One term of the arcsine series: the previous term rescaled by `z2` and
/// by the series ratio `num / den`.
pub open spec fn spec_asin_step(t: int, z2: int, num: int, den: int) -> int {
    t * z2 / 1_000_000_000 * num / den
}

fn asin_step(t: u64, z2: u64, num: u64, den: u64) -> (r: u64)
    requires
        t <= 707_106_781,
        z2 <= 499_999_999,
        1 <= num,
        num <= den,
        den <= 930,
    ensures
        r as int == spec_asin_step(t as int, z2 as int, num as int, den as int),
        r as int <= (t as int) * (num as int) / (den as int),
        r <= t,
{
    proof {
        lemma_term_bound(t as int, z2 as int, 707_106_781, 1);
    }
    let b: u64 = t * z2 / 1_000_000_000;
    proof {
        lemma_mul_le(t as int, z2 as int, t as int, 1_000_000_000);
        lemma_div_is_ordered((t as int) * (z2 as int), (t as int) * 1_000_000_000, 1_000_000_000);
        assert((t as int) * 1_000_000_000 / 1_000_000_000 == t as int) by (nonlinear_arith)
            requires
                t >= 0,
        ;
        lemma_mul_le(b as int, num as int, 707_106_781, 930);
        lemma_mul_le(b as int, num as int, t as int, num as int);
        lemma_div_is_ordered((b as int) * (num as int), (t as int) * (num as int), den as int);
        lemma_mul_le(t as int, num as int, t as int, den as int);
        lemma_div_is_ordered((t as int) * (num as int), (t as int) * (den as int), den as int);
        assert((t as int) * (den as int) / (den as int) == t as int) by (nonlinear_arith)
            requires
                t >= 0,
                den >= 1,
        ;
    }
    let c: u64 = b * num;
    c / den
}

/// Arcsine of a value in [0, sqrt(1/2)], by the first sixteen terms of its
/// series.
pub open spec fn spec_asin9(z: int) -> int {
    let z2 = z * z / 1_000_000_000;
    let t1 = spec_asin_step(z, z2, 1, 6);
    let t2 = spec_asin_step(t1, z2, 9, 20);
    let t3 = spec_asin_step(t2, z2, 25, 42);
    let t4 = spec_asin_step(t3, z2, 49, 72);
    let t5 = spec_asin_step(t4, z2, 81, 110);
    let t6 = spec_asin_step(t5, z2, 121, 156);
    let t7 = spec_asin_step(t6, z2, 169, 210);
    let t8 = spec_asin_step(t7, z2, 225, 272);
    let t9 = spec_asin_step(t8, z2, 289, 342);
    let t10 = spec_asin_step(t9, z2, 361, 420);
    let t11 = spec_asin_step(t10, z2, 441, 506);
    let t12 = spec_asin_step(t11, z2, 529, 600);
    let t13 = spec_asin_step(t12, z2, 625, 702);
    let t14 = spec_asin_step(t13, z2, 729, 812);
    let t15 = spec_asin_step(t14, z2, 841, 930);
    z + t1 + t2 + t3 + t4 + t5 + t6 + t7 + t8 + t9 + t10 + t11 + t12 + t13 + t14 + t15
}

pub fn asin9(z: u64) -> (r: u64)
    requires
        z <= 707_106_781,
    ensures
        r as int == spec_asin9(z as int),
        r <= 1_100_000_000,
{
    proof {
        lemma_mul_le(z as int, z as int, 707_106_781, 707_106_781);
        lemma_div_is_ordered((z as int) * (z as int), 499_999_999_736_181_961, 1_000_000_000);
    }
    let z2: u64 = z * z / 1_000_000_000;
    let t1: u64 = asin_step(z, z2, 1, 6);
    proof {
        lemma_div_is_ordered((z as int) * 1, 707_106_781int * 1, 6);
    }
    let t2: u64 = asin_step(t1, z2, 9, 20);
    proof {
        lemma_div_is_ordered((t1 as int) * 9, 117_851_130int * 9, 20);
    }
    let t3: u64 = asin_step(t2, z2, 25, 42);
    proof {
        lemma_div_is_ordered((t2 as int) * 25, 53_033_008int * 25, 42);
    }
    let t4: u64 = asin_step(t3, z2, 49, 72);
    proof {
        lemma_div_is_ordered((t3 as int) * 49, 31_567_266int * 49, 72);
    }
    let t5: u64 = asin_step(t4, z2, 81, 110);
    proof {
        lemma_div_is_ordered((t4 as int) * 81, 21_483_278int * 81, 110);
    }
    let t6: u64 = asin_step(t5, z2, 121, 156);
    proof {
        lemma_div_is_ordered((t5 as int) * 121, 15_819_504int * 121, 156);
    }
    let t7: u64 = asin_step(t6, z2, 169, 210);
    proof {
        lemma_div_is_ordered((t6 as int) * 169, 12_270_256int * 169, 210);
    }
    let t8: u64 = asin_step(t7, z2, 225, 272);
    proof {
        lemma_div_is_ordered((t7 as int) * 225, 9_874_634int * 225, 272);
    }
    let t9: u64 = asin_step(t8, z2, 289, 342);
    proof {
        lemma_div_is_ordered((t8 as int) * 289, 8_168_355int * 289, 342);
    }
    let t10: u64 = asin_step(t9, z2, 361, 420);
    proof {
        lemma_div_is_ordered((t9 as int) * 361, 6_902_498int * 361, 420);
    }
    let t11: u64 = asin_step(t10, z2, 441, 506);
    proof {
        lemma_div_is_ordered((t10 as int) * 441, 5_932_861int * 441, 506);
    }
    let t12: u64 = asin_step(t11, z2, 529, 600);
    proof {
        lemma_div_is_ordered((t11 as int) * 529, 5_170_734int * 529, 600);
    }
    let t13: u64 = asin_step(t12, z2, 625, 702);
    proof {
        lemma_div_is_ordered((t12 as int) * 625, 4_558_863int * 625, 702);
    }
    let t14: u64 = asin_step(t13, z2, 729, 812);
    proof {
        lemma_div_is_ordered((t13 as int) * 729, 4_058_816int * 729, 812);
    }
    let t15: u64 = asin_step(t14, z2, 841, 930);
    proof {
        lemma_div_is_ordered((t14 as int) * 841, 3_643_937int * 841, 930);
    }
    z + t1 + t2 + t3 + t4 + t5 + t6 + t7 + t8 + t9 + t10 + t11 + t12 + t13 + t14 + t15
}

} // verus!
