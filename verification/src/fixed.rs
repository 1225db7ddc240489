//! Saturating fixed-point arithmetic in millionths.

use vstd::prelude::*;

verus! {

/// Raw units in one whole: the raw value `SCALE` stands for the real number 1.
pub const SCALE: u64 = 1_000_000;

/// The raw value nearest below `x` that a 64-bit counter can hold.
pub open spec fn clamp_u64(x: int) -> u64 {
    if x < 0 {
        0
    } else if x > u64::MAX {
        u64::MAX
    } else {
        x as u64
    }
}

/// `x` brought into the range of `i64`.
pub open spec fn clamp_i64(x: int) -> i64 {
    if x < i64::MIN {
        i64::MIN
    } else if x > i64::MAX {
        i64::MAX
    } else {
        x as i64
    }
}

/// `x` brought into the range of `i128`.
pub open spec fn clamp_i128(x: int) -> i128 {
    if x < i128::MIN {
        i128::MIN
    } else if x > i128::MAX {
        i128::MAX
    } else {
        x as i128
    }
}

/// Product of two non-negative fixed-point numbers, rounded down and saturated.
pub open spec fn spec_scaled_mul(a: u64, b: u64) -> u64 {
    clamp_u64((a as int * b as int) / (SCALE as int))
}

/// Sum of two counters, saturated.
pub open spec fn spec_sat_add(a: u64, b: u64) -> u64 {
    clamp_u64(a as int + b as int)
}

/// A non-negative magnitude `v` times a signed factor `w`, rounded towards zero.
pub open spec fn spec_weighted(v: u64, w: i64) -> int {
    if w >= 0 {
        (v as int * w as int) / (SCALE as int)
    } else {
        -((v as int * (-(w as int))) / (SCALE as int))
    }
}

/// The quotient `num / den` of two non-negative integers as a fixed-point number, saturated.
pub open spec fn spec_ratio(num: u64, den: u64) -> u64
    recommends
        den > 0,
{
    clamp_u64((num as int * SCALE as int) / (den as int))
}

/// A counter after one decay step: multiplied by `factor`, and snapped to zero below `floor`.
pub open spec fn spec_decay(c: u64, factor: u64, floor: u64) -> u64 {
    let x = spec_scaled_mul(c, factor);
    if x < floor {
        0
    } else {
        x
    }
}

/// A counter after one more unit, held at `cap`.
pub open spec fn spec_bump(c: u64, cap: u64) -> u64 {
    if c as int + SCALE as int > cap as int {
        cap
    } else {
        (c + SCALE) as u64
    }
}

/// The square of what `c` lacks to reach `threshold`; zero where it lacks nothing.
pub open spec fn spec_deficit_squared(threshold: u64, c: u64) -> u64 {
    if c < threshold {
        spec_scaled_mul((threshold - c) as u64, (threshold - c) as u64)
    } else {
        0
    }
}

pub proof fn lemma_product_bound(a: u64, b: u64)
    ensures
        0 <= a as int * b as int <= 0xFFFF_FFFF_FFFF_FFFE_0000_0000_0000_0001,
{
    assert(0 <= a as int * b as int <= 0xFFFF_FFFF_FFFF_FFFE_0000_0000_0000_0001) by (nonlinear_arith)
        requires
            0 <= a as int <= 0xFFFF_FFFF_FFFF_FFFF,
            0 <= b as int <= 0xFFFF_FFFF_FFFF_FFFF,
    ;
}

/// A product with a factor below one does not exceed the other factor.
pub proof fn lemma_scaled_mul_shrinks(c: u64, factor: u64)
    requires
        factor <= SCALE,
    ensures
        spec_scaled_mul(c, factor) <= c,
{
    let p = c as int * factor as int;
    assert(p <= c as int * SCALE as int) by (nonlinear_arith)
        requires
            p == c as int * factor as int,
            factor as int <= SCALE as int,
            0 <= c as int,
    ;
    assert(p / (SCALE as int) <= c as int) by (nonlinear_arith)
        requires
            p <= c as int * SCALE as int,
            SCALE as int == 1_000_000,
    ;
    assert(0 <= p) by (nonlinear_arith)
        requires
            p == c as int * factor as int,
            0 <= c as int,
            0 <= factor as int,
    ;
}

/// The magnitude of a weighted term is below 2^108.
pub proof fn lemma_weighted_bound(v: u64, w: i64)
    ensures
        -0x1000_0000_0000_0000_0000_0000_0000 < spec_weighted(v, w)
            < 0x1000_0000_0000_0000_0000_0000_0000,
        w >= 0 ==> spec_weighted(v, w) >= 0,
        w <= 0 ==> spec_weighted(v, w) <= 0,
        v == 0 || w == 0 ==> spec_weighted(v, w) == 0,
{
    let m: int = if w >= 0 { w as int } else { -(w as int) };
    let p = v as int * m;
    assert(0 <= p <= 0xFFFF_FFFF_FFFF_FFFF * 0x8000_0000_0000_0000) by (nonlinear_arith)
        requires
            p == v as int * m,
            0 <= v as int <= 0xFFFF_FFFF_FFFF_FFFF,
            0 <= m <= 0x8000_0000_0000_0000,
    ;
    assert(0 <= p / 1_000_000 <= p) by (nonlinear_arith)
        requires
            0 <= p,
    ;
    assert(p / 1_000_000 < 0x1000_0000_0000_0000_0000_0000_0000) by (nonlinear_arith)
        requires
            0 <= p <= 0xFFFF_FFFF_FFFF_FFFF * 0x8000_0000_0000_0000,
    ;
    if v == 0 || w == 0 {
        assert(p == 0) by (nonlinear_arith)
            requires
                p == v as int * m,
                v as int == 0 || m == 0,
        ;
    }
}

pub fn scaled_mul(a: u64, b: u64) -> (r: u64)
    ensures
        r == spec_scaled_mul(a, b),
{
    proof {
        lemma_product_bound(a, b);
    }
    let p: u128 = (a as u128) * (b as u128);
    let q: u128 = p / (SCALE as u128);
    if q > u64::MAX as u128 {
        u64::MAX
    } else {
        q as u64
    }
}

pub fn sat_add(a: u64, b: u64) -> (r: u64)
    ensures
        r == spec_sat_add(a, b),
{
    if a > u64::MAX - b {
        u64::MAX
    } else {
        a + b
    }
}

pub fn weighted(v: u64, w: i64) -> (r: i128)
    ensures
        r == spec_weighted(v, w),
{
    proof {
        lemma_weighted_bound(v, w);
    }
    if w >= 0 {
        proof {
            lemma_product_bound(v, w as u64);
        }
        let p: u128 = (v as u128) * (w as u128);
        (p / (SCALE as u128)) as i128
    } else {
        let m: u128 = (-(w as i128)) as u128;
        assert(0 <= v as int * m as int <= 0xFFFF_FFFF_FFFF_FFFF * 0x8000_0000_0000_0000)
            by (nonlinear_arith)
            requires
                0 <= v as int <= 0xFFFF_FFFF_FFFF_FFFF,
                0 <= m as int <= 0x8000_0000_0000_0000,
        ;
        let p: u128 = (v as u128) * m;
        -((p / (SCALE as u128)) as i128)
    }
}

pub fn ratio(num: u64, den: u64) -> (r: u64)
    requires
        den > 0,
    ensures
        r == spec_ratio(num, den),
{
    proof {
        lemma_product_bound(num, SCALE);
    }
    let p: u128 = (num as u128) * (SCALE as u128);
    let q: u128 = p / (den as u128);
    if q > u64::MAX as u128 {
        u64::MAX
    } else {
        q as u64
    }
}

pub fn decay(c: u64, factor: u64, floor: u64) -> (r: u64)
    ensures
        r == spec_decay(c, factor, floor),
{
    let x = scaled_mul(c, factor);
    if x < floor {
        0
    } else {
        x
    }
}

pub fn bump(c: u64, cap: u64) -> (r: u64)
    ensures
        r == spec_bump(c, cap),
        r <= cap,
{
    if c > cap || cap - c < SCALE {
        cap
    } else {
        c + SCALE
    }
}

pub fn deficit_squared(threshold: u64, c: u64) -> (r: u64)
    ensures
        r == spec_deficit_squared(threshold, c),
{
    if c < threshold {
        scaled_mul(threshold - c, threshold - c)
    } else {
        0
    }
}

/// Sum of two scores, saturated at the ends of `i128`.
pub fn sat_add_i128(a: i128, b: i128) -> (r: i128)
    ensures
        r == clamp_i128(a as int + b as int),
{
    if b > 0 && a > i128::MAX - b {
        i128::MAX
    } else if b < 0 && a < i128::MIN - b {
        i128::MIN
    } else {
        a + b
    }
}

pub fn clamp_to_i64(x: i128) -> (r: i64)
    ensures
        r == clamp_i64(x as int),
{
    if x < i64::MIN as i128 {
        i64::MIN
    } else if x > i64::MAX as i128 {
        i64::MAX
    } else {
        x as i64
    }
}

} // verus!
