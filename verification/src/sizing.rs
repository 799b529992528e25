//! Sizing calculator: derives the bit-array length and the hash-function
//! count from the expected item count and the target false-positive rate.
//!
//! The rate is represented by its negated natural logarithm in 32.32
//! fixed point (`neg_ln_fp` stands for `round(-ln(p) * 2^32)`), so both
//! functions are exact integer arithmetic with pinned contracts.

use vstd::prelude::*;

verus! {

/// The 32.32 fixed-point unit: `2^32`.
pub const FIXED_ONE: u64 = 4294967296;

/// `ln 2` in 32.32 fixed point: `round(ln(2) * 2^32)`.
pub const LN2_FIXED: u64 = 2977044472;

/// `ln(2)^2` in 32.32 fixed point: `round(ln(2)^2 * 2^32)`.
pub const LN2_SQUARED_FIXED: u64 = 2063529982;

/// `-ln(0.01)` in 32.32 fixed point: the default false-positive rate is 1%.
pub const DEFAULT_NEG_LN_FP: u64 = 19779055341;

/// The largest negated log-rate accepted: `64 * 2^32`, i.e. rates down to
/// `e^-64`, far beyond any practically useful false-positive rate.
pub const MAX_NEG_LN_FP: u64 = 274877906944;

/// The largest expected item count accepted, so that the derived bit-array
/// length always fits in the machine's word, 32-bit targets included.
pub const MAX_APPROX_ITEMS: u64 = 32000000;

/// The largest bit-array length a filter can be built with: `2^32 - 1`, so
/// an index always fits in `usize`.  The accepted item counts and rates are
/// capped so the sizing formula never exceeds this.
pub const MAX_NUM_BITS: u64 = 4294967295;

/// The optimal bit-array length for `approx_items` expected items and a
/// false-positive rate whose negated natural log is `neg_ln_fp / 2^32`:
/// `ceil(approx_items * (-ln p) / ln(2)^2)` in fixed point.
pub open spec fn bit_length_spec(approx_items: u64, neg_ln_fp: u64) -> int {
    (approx_items * neg_ln_fp + (LN2_SQUARED_FIXED - 1)) / (LN2_SQUARED_FIXED as int)
}

/// The optimal hash-function count for a bit-array of `num_bits` bits and
/// `approx_items` expected items: `ceil((num_bits / approx_items) * ln 2)`,
/// where `num_bits / approx_items` truncates.  The truncating division is
/// part of the observable sizing behaviour and is kept exactly.
pub open spec fn hash_count_spec(num_bits: u64, approx_items: u64) -> int
    recommends
        approx_items >= 1,
{
    ((num_bits as int / approx_items as int) * LN2_FIXED + (FIXED_ONE - 1)) / (FIXED_ONE as int)
}

/// The hash-function count a filter is actually built with: the optimal
/// count, raised to one where the formula rounds to zero, since a filter
/// needs at least one probe per item.
pub open spec fn effective_hash_count_spec(num_bits: u64, approx_items: u64) -> int
    recommends
        approx_items >= 1,
{
    if hash_count_spec(num_bits, approx_items) == 0 {
        1
    } else {
        hash_count_spec(num_bits, approx_items)
    }
}

/// The sizing bound: for inputs within the accepted ranges the derived bit
/// count stays below `MAX_NUM_BITS`.
pub proof fn lemma_bit_length_bounded(approx_items: u64, neg_ln_fp: u64)
    requires
        approx_items <= MAX_APPROX_ITEMS,
        neg_ln_fp <= MAX_NEG_LN_FP,
    ensures
        0 <= bit_length_spec(approx_items, neg_ln_fp) <= MAX_NUM_BITS,
{
    assert(approx_items * neg_ln_fp <= MAX_APPROX_ITEMS * MAX_NEG_LN_FP) by (nonlinear_arith)
        requires
            approx_items <= MAX_APPROX_ITEMS,
            neg_ln_fp <= MAX_NEG_LN_FP,
    ;
    vstd::arithmetic::div_mod::lemma_div_is_ordered(
        0,
        approx_items * neg_ln_fp + (LN2_SQUARED_FIXED - 1),
        LN2_SQUARED_FIXED as int,
    );
    vstd::arithmetic::div_mod::lemma_div_is_ordered(
        approx_items * neg_ln_fp + (LN2_SQUARED_FIXED - 1),
        MAX_APPROX_ITEMS * MAX_NEG_LN_FP + (LN2_SQUARED_FIXED - 1),
        LN2_SQUARED_FIXED as int,
    );
    assert((MAX_APPROX_ITEMS * MAX_NEG_LN_FP + (LN2_SQUARED_FIXED - 1))
        / (LN2_SQUARED_FIXED as int) <= MAX_NUM_BITS);
}

/// Optimal bit-array length, `ceil(approx_items * (-ln p) / ln(2)^2)`, with
/// the rate given as `neg_ln_fp = round(-ln(p) * 2^32)`.
pub fn optimal_num_bits(approx_items: u64, neg_ln_fp: u64) -> (r: u64)
    requires
        approx_items <= MAX_APPROX_ITEMS,
        neg_ln_fp <= MAX_NEG_LN_FP,
    ensures
        r as int == bit_length_spec(approx_items, neg_ln_fp),
        r <= MAX_NUM_BITS,
{
    proof {
        lemma_bit_length_bounded(approx_items, neg_ln_fp);
    }
    let num: u128 = (approx_items as u128) * (neg_ln_fp as u128) + ((LN2_SQUARED_FIXED - 1) as u128);
    let q: u128 = num / (LN2_SQUARED_FIXED as u128);
    q as u64
}

/// Optimal hash-function count, `ceil((num_bits / approx_items) * ln 2)`
/// with truncating integer division of `num_bits / approx_items`.
pub fn optimal_num_hashes(num_bits: u64, approx_items: u64) -> (r: u64)
    requires
        approx_items >= 1,
    ensures
        r as int == hash_count_spec(num_bits, approx_items),
{
    let quot: u64 = num_bits / approx_items;
    let num: u128 = (quot as u128) * (LN2_FIXED as u128) + ((FIXED_ONE - 1) as u128);
    proof {
        assert(quot * LN2_FIXED <= 0xffff_ffff_ffff_ffffu64 * LN2_FIXED) by (nonlinear_arith)
            requires
                quot <= 0xffff_ffff_ffff_ffffu64,
        ;
        vstd::arithmetic::div_mod::lemma_div_is_ordered(
            quot * LN2_FIXED + (FIXED_ONE - 1),
            0xffff_ffff_ffff_ffffu64 * LN2_FIXED + (FIXED_ONE - 1),
            FIXED_ONE as int,
        );
        assert((0xffff_ffff_ffff_ffffu64 * LN2_FIXED + (FIXED_ONE - 1)) / (FIXED_ONE as int)
            <= 0xffff_ffff_ffff_ffffu64);
        vstd::arithmetic::div_mod::lemma_div_is_ordered(
            0,
            quot * LN2_FIXED + (FIXED_ONE - 1),
            FIXED_ONE as int,
        );
    }
    let k: u128 = num / (FIXED_ONE as u128);
    k as u64
}

} // verus!
