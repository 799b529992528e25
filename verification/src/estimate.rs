//! The cardinality estimator: approximates how many distinct items were
//! inserted from the fill of the bit array alone, as
//! `round(-(m/k) * ln(1 - x/m))` for `m` bits, `k` probes per item and `x`
//! set bits.
//!
//! The natural logarithm is computed in 32.32 fixed point:
//! `ln v = (floor_log2(v) + frac) * ln 2`, where the fractional part of the
//! base-two logarithm is approximated by `u + c*u*(1-u)` on the mantissa
//! `u = v/2^floor_log2(v) - 1`.  Every step is exact integer arithmetic, so
//! the estimate has a pinned contract and is provably non-decreasing in the
//! number of set bits.

use vstd::prelude::*;
use vstd::arithmetic::div_mod::lemma_div_is_ordered;
use vstd::arithmetic::div_mod::lemma_div_multiples_vanish;
use vstd::arithmetic::div_mod::lemma_div_pos_is_pos;
use vstd::arithmetic::div_mod::lemma_hoist_over_denominator;
use vstd::arithmetic::div_mod::lemma_multiply_divide_le;
use vstd::arithmetic::div_mod::lemma_multiply_divide_lt;
use vstd::arithmetic::mul::lemma_mul_inequality;
use vstd::arithmetic::power2::lemma_pow2_pos;
use vstd::arithmetic::power2::lemma_pow2_strictly_increases;
use vstd::arithmetic::power2::lemma_pow2_unfold;
use vstd::arithmetic::power2::pow2;
use crate::sizing::FIXED_ONE;
use crate::sizing::LN2_FIXED;
use crate::sizing::MAX_NUM_BITS;

verus! {

/// The quadratic correction constant for the mantissa's base-two log,
/// `round(0.3466 * 2^32)`: `log2(1+u)` is within 0.008 of `u + c*u*(1-u)`.
pub const LOG_CORR_FIXED: u64 = 1488635665;

/// Half of the fixed-point unit, for rounding to nearest.
pub const HALF_FIXED: u64 = 2147483648;

/// The integer part of the base-two logarithm.
pub open spec fn floor_log2(v: nat) -> nat
    recommends
        v >= 1,
    decreases v,
{
    if v < 2 {
        0
    } else {
        1 + floor_log2(v / 2)
    }
}

/// The mantissa of `v` in 32.32 fixed point, minus one:
/// `floor(v * 2^32 / 2^floor_log2(v)) - 2^32`, in `[0, 2^32)`.
pub open spec fn mantissa_part(v: nat) -> int
    recommends
        v >= 1,
{
    (v * FIXED_ONE) / (pow2(floor_log2(v)) as int) - FIXED_ONE
}

/// The quadratic correction `floor(c * u * (1 - u))` on the mantissa, in
/// 32.32 fixed point.
pub open spec fn corr_part(v: nat) -> int
    recommends
        v >= 1,
{
    (LOG_CORR_FIXED * mantissa_part(v) * (FIXED_ONE - mantissa_part(v))) / (
    FIXED_ONE * FIXED_ONE)
}

/// The base-two logarithm of `v` in 32.32 fixed point.
pub open spec fn log2_fixed_spec(v: nat) -> int
    recommends
        v >= 1,
{
    floor_log2(v) * FIXED_ONE + mantissa_part(v) + corr_part(v)
}

/// The natural logarithm of `v` in 32.32 fixed point.
pub open spec fn ln_fixed_spec(v: nat) -> int
    recommends
        v >= 1,
{
    (log2_fixed_spec(v) * LN2_FIXED) / (FIXED_ONE as int)
}

/// The cardinality estimate for a filter of `m` bits, `k` probes per item
/// and `x` set bits: `round((m/k) * ln(m / (m - x)))` in fixed point, and
/// the largest `u64` once the array has saturated, where the true formula
/// diverges.
pub open spec fn estimate_spec(m: u64, k: u64, x: u64) -> int
    recommends
        1 <= m,
        1 <= k,
        x <= m,
{
    if x == m {
        u64::MAX as int
    } else {
        (m * (ln_fixed_spec(m as nat) - ln_fixed_spec((m - x) as nat)) + k * HALF_FIXED) / (k
            * (FIXED_ONE as int))
    }
}

/// `2^floor_log2(v) <= v < 2^(floor_log2(v) + 1)`.
pub proof fn lemma_floor_log2_bounds(v: nat)
    requires
        v >= 1,
    ensures
        pow2(floor_log2(v)) <= v < pow2(floor_log2(v) + 1),
    decreases v,
{
    if v < 2 {
        assert(pow2(0) == 1 && pow2(1) == 2) by {
            vstd::arithmetic::power2::lemma2_to64();
        }
    } else {
        let e = floor_log2(v / 2);
        lemma_floor_log2_bounds(v / 2);
        lemma_pow2_unfold(e + 1);
        lemma_pow2_unfold(e + 2);
        assert(pow2(e + 1) == 2 * pow2(e));
        assert(v < pow2(e + 2)) by {
            assert(v / 2 < pow2(e + 1));
            assert(v <= 2 * (v / 2) + 1);
        }
    }
}

/// The integer log is the only exponent whose power-of-two band holds `v`.
proof fn lemma_floor_log2_unique(v: nat, e: nat)
    requires
        v >= 1,
        pow2(e) <= v < pow2(e + 1),
    ensures
        floor_log2(v) == e,
{
    let l = floor_log2(v);
    lemma_floor_log2_bounds(v);
    if l < e {
        if l + 1 < e {
            lemma_pow2_strictly_increases(l + 1, e);
        }
        assert(pow2(l + 1) <= pow2(e));
    }
    if l > e {
        if e + 1 < l {
            lemma_pow2_strictly_increases(e + 1, l);
        }
        assert(pow2(e + 1) <= pow2(l));
    }
}

/// The integer log never decreases.
proof fn lemma_floor_log2_mono(v1: nat, v2: nat)
    requires
        1 <= v1 <= v2,
    ensures
        floor_log2(v1) <= floor_log2(v2),
{
    lemma_floor_log2_bounds(v1);
    lemma_floor_log2_bounds(v2);
    if floor_log2(v1) > floor_log2(v2) {
        lemma_pow2_strictly_increases(floor_log2(v2) + 1, floor_log2(v1));
        assert(pow2(floor_log2(v1)) <= v1);
        assert(v2 < pow2(floor_log2(v2) + 1));
    }
}

/// The mantissa lies in `[0, 2^32)` and the correction keeps the band:
/// `0 <= mantissa + correction <= 2^32 - 1`.
proof fn lemma_parts_bounds(v: nat)
    requires
        v >= 1,
    ensures
        0 <= mantissa_part(v) < FIXED_ONE,
        0 <= corr_part(v),
        mantissa_part(v) + corr_part(v) <= FIXED_ONE - 1,
{
    let e = floor_log2(v);
    let p = pow2(e) as int;
    lemma_floor_log2_bounds(v);
    lemma_pow2_pos(e);
    lemma_pow2_unfold(e + 1);
    let s = FIXED_ONE as int;
    // p <= v < 2p, hence s <= (v*s)/p < 2s.
    assert(p * s <= v * s) by (nonlinear_arith)
        requires
            0 < p <= v as int,
            s > 0,
    ;
    lemma_div_is_ordered(p * s, v * s, p);
    lemma_div_multiples_vanish(s, p);
    assert(((v * s) as int) < p * (2 * s)) by (nonlinear_arith)
        requires
            0 < p,
            (v as int) < 2 * p,
            s > 0,
    ;
    lemma_multiply_divide_lt(v * s, p, 2 * s);
    let u = mantissa_part(v);
    let num = LOG_CORR_FIXED * u * (s - u);
    assert(num >= 0 && num < (s * s) * (s - u) && 0 < s * s) by (nonlinear_arith)
        requires
            num == LOG_CORR_FIXED * u * (s - u),
            0 <= u < s,
            0 < LOG_CORR_FIXED < s,
    ;
    lemma_div_pos_is_pos(num, s * s);
    lemma_multiply_divide_lt(num, s * s, s - u);
}

/// Within one power-of-two band the fixed-point log2 never decreases.
proof fn lemma_log2_fixed_mono_same_band(v1: nat, v2: nat)
    requires
        1 <= v1 <= v2,
        floor_log2(v1) == floor_log2(v2),
    ensures
        log2_fixed_spec(v1) <= log2_fixed_spec(v2),
{
    let e = floor_log2(v1);
    let p = pow2(e) as int;
    let s = FIXED_ONE as int;
    lemma_pow2_pos(e);
    assert(v1 * s <= v2 * s) by (nonlinear_arith)
        requires
            v1 <= v2,
            s > 0,
    ;
    lemma_div_is_ordered(v1 * s, v2 * s, p);
    let u1 = mantissa_part(v1);
    let u2 = mantissa_part(v2);
    lemma_parts_bounds(v1);
    lemma_parts_bounds(v2);
    let d = u2 - u1;
    let n1 = LOG_CORR_FIXED * u1 * (s - u1);
    let n2 = LOG_CORR_FIXED * u2 * (s - u2);
    assert(n1 <= n2 + d * (s * s)) by (nonlinear_arith)
        requires
            0 <= u1 <= u2 < s,
            d == u2 - u1,
            n1 == LOG_CORR_FIXED * u1 * (s - u1),
            n2 == LOG_CORR_FIXED * u2 * (s - u2),
            0 < LOG_CORR_FIXED < s,
    ;
    lemma_div_is_ordered(n1, n2 + d * (s * s), s * s);
    lemma_hoist_over_denominator(n2, d, (s * s) as nat);
    assert(corr_part(v1) <= corr_part(v2) + d);
}

/// The fixed-point natural log never decreases.
pub proof fn lemma_ln_fixed_mono(v1: nat, v2: nat)
    requires
        1 <= v1 <= v2,
    ensures
        ln_fixed_spec(v1) <= ln_fixed_spec(v2),
{
    let s = FIXED_ONE as int;
    lemma_parts_bounds(v1);
    lemma_parts_bounds(v2);
    lemma_floor_log2_mono(v1, v2);
    if floor_log2(v1) == floor_log2(v2) {
        lemma_log2_fixed_mono_same_band(v1, v2);
    } else {
        let e1 = floor_log2(v1);
        let e2 = floor_log2(v2);
        assert((e1 + 1) * s <= e2 * s) by (nonlinear_arith)
            requires
                e1 + 1 <= e2,
                s > 0,
        ;
        assert(log2_fixed_spec(v1) <= log2_fixed_spec(v2));
    }
    lemma_mul_inequality(log2_fixed_spec(v1), log2_fixed_spec(v2), LN2_FIXED as int);
    lemma_div_is_ordered(
        log2_fixed_spec(v1) * LN2_FIXED,
        log2_fixed_spec(v2) * LN2_FIXED,
        s,
    );
}

/// The fixed-point natural log is non-negative and, below the bit-array
/// cap, bounded by `33 * ln 2`.
pub proof fn lemma_ln_fixed_range(v: nat)
    requires
        1 <= v <= MAX_NUM_BITS,
    ensures
        0 <= ln_fixed_spec(v) <= 33 * LN2_FIXED,
{
    let s = FIXED_ONE as int;
    let e = floor_log2(v);
    lemma_parts_bounds(v);
    lemma_floor_log2_bounds(v);
    assert(e <= 31) by {
        if e >= 32 {
            if e > 32 {
                lemma_pow2_strictly_increases(32, e);
            }
            assert(pow2(32) == 0x1_0000_0000) by {
                vstd::arithmetic::power2::lemma2_to64();
            }
            assert(false);
        }
    }
    assert(0 <= e * s <= 31 * s) by (nonlinear_arith)
        requires
            0 <= e <= 31,
            s > 0,
    ;
    assert(log2_fixed_spec(v) * LN2_FIXED >= 0) by (nonlinear_arith)
        requires
            log2_fixed_spec(v) >= 0,
            LN2_FIXED > 0,
    ;
    lemma_div_pos_is_pos(log2_fixed_spec(v) * LN2_FIXED, s);
    assert(log2_fixed_spec(v) * LN2_FIXED <= (32 * s) * LN2_FIXED) by (nonlinear_arith)
        requires
            log2_fixed_spec(v) <= 32 * s,
            LN2_FIXED > 0,
    ;
    lemma_div_is_ordered(log2_fixed_spec(v) * LN2_FIXED, (32 * s) * LN2_FIXED, s);
    lemma_div_multiples_vanish(32 * (LN2_FIXED as int), s);
    assert((32 * s) * LN2_FIXED == s * (32 * (LN2_FIXED as int))) by (nonlinear_arith);
}

/// Cardinality estimate monotonicity: with the bit count and probe count
/// fixed, the estimate never decreases as more bits are set.  Together with
/// insertion only ever setting bits, the estimate is non-decreasing across
/// any sequence of insertions.
pub proof fn lemma_estimate_monotone(m: u64, k: u64, x1: u64, x2: u64)
    requires
        1 <= m <= MAX_NUM_BITS,
        1 <= k,
        x1 <= x2 <= m,
    ensures
        estimate_spec(m, k, x1) <= estimate_spec(m, k, x2),
{
    let s = FIXED_ONE as int;
    if x1 == x2 {
    } else if x2 == m {
        lemma_estimate_below_max(m, k, x1);
    } else {
        let lm = ln_fixed_spec(m as nat);
        let l1 = ln_fixed_spec((m - x1) as nat);
        let l2 = ln_fixed_spec((m - x2) as nat);
        lemma_ln_fixed_mono((m - x2) as nat, (m - x1) as nat);
        lemma_ln_fixed_mono((m - x1) as nat, m as nat);
        lemma_mul_inequality(lm - l1, lm - l2, m as int);
        assert((lm - l1) * m == m * (lm - l1)) by (nonlinear_arith);
        assert((lm - l2) * m == m * (lm - l2)) by (nonlinear_arith);
        assert(k * (s as int) > 0) by (nonlinear_arith)
            requires
                k >= 1,
                s > 0,
        ;
        lemma_div_is_ordered(
            m * (lm - l1) + k * HALF_FIXED,
            m * (lm - l2) + k * HALF_FIXED,
            k * s,
        );
    }
}

/// Below saturation the estimate always fits a `u64`.
pub proof fn lemma_estimate_below_max(m: u64, k: u64, x: u64)
    requires
        1 <= m <= MAX_NUM_BITS,
        1 <= k,
        x < m,
    ensures
        0 <= estimate_spec(m, k, x) <= u64::MAX,
{
    let s = FIXED_ONE as int;
    let lm = ln_fixed_spec(m as nat);
    let lr = ln_fixed_spec((m - x) as nat);
    lemma_ln_fixed_mono((m - x) as nat, m as nat);
    lemma_ln_fixed_range(m as nat);
    lemma_ln_fixed_range((m - x) as nat);
    let num = m * (lm - lr) + k * HALF_FIXED;
    let den = k * s;
    assert(den > 0 && num >= 0 && num <= den * 0x40_0000_0000) by (nonlinear_arith)
        requires
            num == m * (lm - lr) + k * HALF_FIXED,
            den == k * s,
            s == 0x1_0000_0000,
            HALF_FIXED == 0x8000_0000,
            1 <= k,
            1 <= m <= 0xffff_ffff,
            0 <= lm - lr <= 33 * LN2_FIXED,
            LN2_FIXED < 0x1_0000_0000,
    ;
    lemma_div_pos_is_pos(num, den);
    lemma_multiply_divide_le(num, den, 0x40_0000_0000);
}

/// The fixed-point natural logarithm, exactly as `ln_fixed_spec` states it.
pub(crate) fn ln_fixed(v: u64) -> (r: u64)
    requires
        1 <= v <= MAX_NUM_BITS,
    ensures
        r as int == ln_fixed_spec(v as nat),
{
    let mut e: u64 = 0;
    let mut p: u64 = 1;
    let mut w: u64 = v;
    proof {
        assert(pow2(0) == 1) by {
            vstd::arithmetic::power2::lemma2_to64();
        }
    }
    while w >= 2
        invariant
            1 <= w <= v,
            v <= MAX_NUM_BITS,
            e <= 31,
            1 <= p,
            p == pow2(e as nat),
            p * w <= v < p * (w + 1),
        decreases w,
    {
        proof {
            lemma_pow2_unfold(e as nat + 1);
            let t = (w / 2) as int;
            assert(w as int == 2 * t || w as int == 2 * t + 1);
            assert((2 * (p as int)) * t <= v as int && (v as int) < (2 * (p as int)) * (t
                + 1)) by (nonlinear_arith)
                requires
                    (w as int == 2 * t || w as int == 2 * t + 1),
                    (p as int) * (w as int) <= v as int,
                    (v as int) < (p as int) * ((w as int) + 1),
                    p as int >= 1,
            ;
            assert(2 * (p as int) <= v as int) by (nonlinear_arith)
                requires
                    (p as int) * (w as int) <= v as int,
                    w >= 2,
                    p >= 1,
            ;
            assert(e < 31) by {
                if e >= 31 {
                    if e > 31 {
                        lemma_pow2_strictly_increases(31, e as nat);
                    }
                    assert(pow2(31) == 0x8000_0000) by {
                        vstd::arithmetic::power2::lemma2_to64();
                    }
                    assert(false);
                }
            }
        }
        w = w / 2;
        e = e + 1;
        p = p * 2;
    }
    proof {
        lemma_pow2_unfold(e as nat + 1);
        assert((p as int) * 1 == p as int && (p as int) * 2 == 2 * (p as int)
            && (p as int) * ((w as int) + 1) == (p as int) * 2) by (nonlinear_arith)
            requires
                w == 1,
        ;
        lemma_floor_log2_unique(v as nat, e as nat);
        lemma_parts_bounds(v as nat);
        // s <= (v*s)/p < 2s, shown from p <= v < 2p.
        let s = FIXED_ONE as int;
        lemma_pow2_pos(e as nat);
        assert(p * s <= v * s) by (nonlinear_arith)
            requires
                0 < p <= v as int,
                s > 0,
        ;
        lemma_div_is_ordered(p * s, v * s, p as int);
        lemma_div_multiples_vanish(s, p as int);
    }
    let mant128: u128 = ((v as u128) * (FIXED_ONE as u128)) / (p as u128) - (FIXED_ONE as u128);
    let u: u64 = mant128 as u64;
    proof {
        let s = FIXED_ONE as int;
        let uu = mantissa_part(v as nat);
        assert(LOG_CORR_FIXED * uu * (s - uu) < 0x1_0000_0000_0000_0000_0000_0000) by (
        nonlinear_arith)
            requires
                0 <= uu < s,
                s == 0x1_0000_0000,
                0 < LOG_CORR_FIXED < s,
        ;
    }
    let corr128: u128 = ((LOG_CORR_FIXED as u128) * (u as u128) * ((FIXED_ONE - u) as u128)) / (
    (FIXED_ONE as u128) * (FIXED_ONE as u128));
    let corr: u64 = corr128 as u64;
    proof {
        lemma_parts_bounds(v as nat);
    }
    let log2fix: u64 = e * FIXED_ONE + u + corr;
    let r128: u128 = ((log2fix as u128) * (LN2_FIXED as u128)) / (FIXED_ONE as u128);
    proof {
        let s = FIXED_ONE as int;
        assert(log2fix * LN2_FIXED <= (33 * s) * LN2_FIXED) by (nonlinear_arith)
            requires
                0 <= log2fix as int <= 33 * s,
                LN2_FIXED > 0,
        ;
        lemma_div_is_ordered(log2fix as int * LN2_FIXED, (33 * s) * LN2_FIXED, s);
        lemma_div_multiples_vanish(33 * (LN2_FIXED as int), s);
        assert((33 * s) * LN2_FIXED == s * (33 * (LN2_FIXED as int))) by (nonlinear_arith);
        lemma_div_pos_is_pos(log2fix as int * LN2_FIXED, s);
    }
    r128 as u64
}

/// The cardinality estimate, exactly as `estimate_spec` states it.
pub(crate) fn cardinality_estimate(m: u64, k: u64, x: u64) -> (r: u64)
    requires
        1 <= m <= MAX_NUM_BITS,
        1 <= k,
        x <= m,
    ensures
        r as int == estimate_spec(m, k, x),
{
    if x == m {
        return u64::MAX;
    }
    let lm = ln_fixed(m);
    let lr = ln_fixed(m - x);
    proof {
        lemma_ln_fixed_mono((m - x) as nat, m as nat);
        lemma_estimate_below_max(m, k, x);
        assert((m as int) * ((lm - lr) as int) + (k as int) * (HALF_FIXED as int) <= (
        0xffff_ffff_ffff_ffffu64 as int) * (0xffff_ffff_ffff_ffffu64 as int)) by (nonlinear_arith)
            requires
                0 <= m as int <= 0xffff_ffff,
                0 <= (lm - lr) as int <= 0xffff_ffff_ffff_ffff,
                1 <= k as int <= 0xffff_ffff_ffff_ffff,
                HALF_FIXED < 0x1_0000_0000,
        ;
    }
    let num: u128 = (m as u128) * ((lm - lr) as u128) + (k as u128) * (HALF_FIXED as u128);
    let den: u128 = (k as u128) * (FIXED_ONE as u128);
    let r128: u128 = num / den;
    r128 as u64
}

} // verus!
