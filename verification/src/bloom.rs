//! The Bloom filter itself: a packed bit array, the running count of set
//! bits, the per-instance hash seeds, and the insert / query operations.

use vstd::prelude::*;
use crate::bits::bit_seq;
use crate::bits::bv_get;
use crate::bits::bv_len;
use crate::bits::bv_new_unset;
use crate::bits::bv_set;
use crate::bits::count_ones;
use crate::bits::lemma_count_le_len;
use crate::bits::lemma_count_none_set;
use crate::bits::lemma_count_update_true;
use crate::hashes::murmur_digest;
use crate::hashes::murmur_digest_of;
use crate::hashes::MAX_ITEM_BYTES;
use crate::hashes::random_seed;
use crate::hashes::xx_digest;
use crate::hashes::xx_digest_of;
use crate::probes::all_probes_set;
use crate::probes::lemma_probe_index_in_range;
use crate::probes::lemma_probes_preserved;
use crate::probes::lemma_set_probes_frame;
use crate::probes::probe;
use crate::probes::probe_hits;
use crate::probes::set_probes;
use crate::sizing::bit_length_spec;
use crate::sizing::effective_hash_count_spec;
use crate::sizing::optimal_num_bits;
use crate::sizing::optimal_num_hashes;
use crate::sizing::DEFAULT_NEG_LN_FP;
use crate::sizing::MAX_APPROX_ITEMS;
use crate::sizing::MAX_NEG_LN_FP;
use crate::sizing::MAX_NUM_BITS;

verus! {

/// Why a filter could not be constructed: the configuration was invalid and
/// a filter built from it would not honour its own invariants.
#[derive(Clone, Copy, Debug, PartialEq, Eq, Structural)]
pub enum ConfigError {
    /// The expected item count was zero; the sizing formulas divide by it.
    ZeroItems,
    /// The false-positive rate was outside the open interval `(0, 1)`.
    RateOutOfRange,
}

/// A Bloom filter: tracks the total number of set bits along with the
/// underlying bit vector, and probes it with two seeded hash functions,
/// Murmur3 and xxHash, combined by enhanced double hashing.
pub struct BloomFilter {
    bit_vec: bit_vec::BitVec,
    num_hashes: u64,
    set_bits: u64,
    murmur_seed: u32,
    xx_seed: u64,
}

impl BloomFilter {
    /// The bit array.
    pub closed spec fn bits(self) -> Seq<bool> {
        bit_seq(self.bit_vec)
    }

    /// The length of the bit array.
    pub open spec fn num_bits(self) -> nat {
        self.bits().len()
    }

    /// How many probes each item makes.
    pub closed spec fn hash_count(self) -> u64 {
        self.num_hashes
    }

    /// The running count of set bits.
    pub closed spec fn set_bit_count(self) -> u64 {
        self.set_bits
    }

    /// The per-instance hash seeds, drawn once at construction.
    pub closed spec fn seeds(self) -> (u32, u64) {
        (self.murmur_seed, self.xx_seed)
    }

    /// The first 64-bit digest of an item under this filter's seeds.
    pub open spec fn digest1(self, obj: Seq<u8>) -> u64 {
        murmur_digest_of(obj, self.seeds().0)
    }

    /// The second 64-bit digest of an item under this filter's seeds.
    pub open spec fn digest2(self, obj: Seq<u8>) -> u64 {
        xx_digest_of(obj, self.seeds().1)
    }

    /// Well-formedness: the bit array is non-empty and bounded, at least one
    /// probe is made per item, and `set_bit_count` is at all times exactly
    /// the number of set bits in the array.
    pub open spec fn wf(self) -> bool {
        &&& 1 <= self.num_bits() <= MAX_NUM_BITS
        &&& self.hash_count() >= 1
        &&& self.set_bit_count() == count_ones(self.bits())
    }

    /// The membership answer for an item: true when all of its probe
    /// positions are set ("possibly present"), false otherwise ("definitely
    /// absent").
    pub open spec fn might_contain(self, obj: Seq<u8>) -> bool {
        all_probes_set(self.bits(), self.digest1(obj), self.digest2(obj), self.hash_count())
    }

    /// A new filter sized for `approx_items` expected items at the default
    /// false-positive rate of 1%.  Rejects a zero item count.
    pub fn new(approx_items: u64) -> (r: Result<BloomFilter, ConfigError>)
        requires
            approx_items <= MAX_APPROX_ITEMS,
        ensures
            r is Err <==> approx_items == 0,
            match r {
                Ok(f) => {
                    &&& f.wf()
                    &&& f.num_bits() == bit_length_spec(approx_items, DEFAULT_NEG_LN_FP)
                    &&& f.hash_count() == effective_hash_count_spec(
                        (bit_length_spec(approx_items, DEFAULT_NEG_LN_FP)) as u64,
                        approx_items,
                    )
                    &&& f.set_bit_count() == 0
                    &&& forall|o: Seq<u8>| !f.might_contain(o)
                },
                Err(e) => e == ConfigError::ZeroItems,
            },
    {
        BloomFilter::new_with_rate(approx_items, DEFAULT_NEG_LN_FP)
    }

    /// A new filter sized for `approx_items` expected items and an explicit
    /// false-positive rate `p` in `(0, 1)`, given as its negated natural
    /// logarithm in 32.32 fixed point: `neg_ln_fp = round(-ln(p) * 2^32)`.
    /// A rate outside `(0, 1)` has no such representation above zero, and is
    /// rejected, as is a zero item count.
    ///
    /// The accepted ranges are capped — at most `MAX_APPROX_ITEMS` expected
    /// items, rates no smaller than `e^-64` and no closer to one than the
    /// fixed-point grain resolves — so that the bit array always fits the
    /// machine's word, 32-bit targets included.
    pub fn new_with_rate(approx_items: u64, neg_ln_fp: u64) -> (r: Result<
        BloomFilter,
        ConfigError,
    >)
        requires
            approx_items <= MAX_APPROX_ITEMS,
        ensures
            r is Err <==> (approx_items == 0 || neg_ln_fp == 0 || neg_ln_fp > MAX_NEG_LN_FP),
            match r {
                Ok(f) => {
                    &&& f.wf()
                    &&& f.num_bits() == bit_length_spec(approx_items, neg_ln_fp)
                    &&& f.hash_count() == effective_hash_count_spec(
                        (bit_length_spec(approx_items, neg_ln_fp)) as u64,
                        approx_items,
                    )
                    &&& f.set_bit_count() == 0
                    &&& forall|o: Seq<u8>| !f.might_contain(o)
                },
                Err(e) => if approx_items == 0 {
                    e == ConfigError::ZeroItems
                } else {
                    e == ConfigError::RateOutOfRange
                },
            },
    {
        if approx_items == 0 {
            return Err(ConfigError::ZeroItems);
        }
        if neg_ln_fp == 0 || neg_ln_fp > MAX_NEG_LN_FP {
            return Err(ConfigError::RateOutOfRange);
        }
        let num_bits = optimal_num_bits(approx_items, neg_ln_fp);
        proof {
            assert(approx_items * neg_ln_fp >= 1) by (nonlinear_arith)
                requires
                    approx_items >= 1,
                    neg_ln_fp >= 1,
            ;
            vstd::arithmetic::div_mod::lemma_div_is_ordered(
                crate::sizing::LN2_SQUARED_FIXED as int,
                approx_items * neg_ln_fp + (crate::sizing::LN2_SQUARED_FIXED - 1),
                crate::sizing::LN2_SQUARED_FIXED as int,
            );
        }
        let k0 = optimal_num_hashes(num_bits, approx_items);
        let num_hashes: u64 = if k0 == 0 {
            1
        } else {
            k0
        };
        let bv = bv_new_unset(num_bits as usize);
        let seed1 = random_seed();
        let seed2 = random_seed();
        let f = BloomFilter {
            bit_vec: bv,
            num_hashes,
            set_bits: 0,
            murmur_seed: #[verifier::truncate] (seed1 as u32),
            xx_seed: seed2,
        };
        proof {
            lemma_count_none_set(f.bits());
            assert forall|o: Seq<u8>| !f.might_contain(o) by {
                let d1 = f.digest1(o);
                let d2 = f.digest2(o);
                lemma_probe_index_in_range(d1, d2, 0, f.num_bits());
                assert(!probe_hits(f.bits(), d1, d2, 0));
                assert(!all_probes_set(f.bits(), d1, d2, f.hash_count()));
            }
        }
        Ok(f)
    }

    /// Insert an object, given by its bytes.  Sets the k probe positions of
    /// the object's digests; idempotent per unique object.  Bits only flip
    /// from unset to set, so anything the filter reported present before is
    /// still reported present after.
    pub fn set(&mut self, obj: &[u8])
        requires
            old(self).wf(),
            obj@.len() <= MAX_ITEM_BYTES,
        ensures
            final(self).wf(),
            final(self).seeds() == old(self).seeds(),
            final(self).hash_count() == old(self).hash_count(),
            final(self).num_bits() == old(self).num_bits(),
            final(self).bits() == set_probes(
                old(self).bits(),
                old(self).digest1(obj@),
                old(self).digest2(obj@),
                old(self).hash_count(),
            ),
            final(self).might_contain(obj@),
            forall|o: Seq<u8>|
                old(self).might_contain(o) ==> #[trigger] final(self).might_contain(o),
            old(self).set_bit_count() <= final(self).set_bit_count(),
    {
        let h1 = murmur_digest(obj, self.murmur_seed);
        let h2 = xx_digest(obj, self.xx_seed);
        let m = bv_len(&self.bit_vec) as u64;
        let k = self.num_hashes;
        let ghost bits0 = self.bits();
        let mut i: u64 = 0;
        while i < k
            invariant
                i <= k,
                1 <= m == bits0.len() <= MAX_NUM_BITS,
                m <= usize::MAX,
                self.num_hashes == k == old(self).hash_count(),
                self.murmur_seed == old(self).seeds().0,
                self.xx_seed == old(self).seeds().1,
                h1 == old(self).digest1(obj@),
                h2 == old(self).digest2(obj@),
                bits0 == old(self).bits(),
                self.bits() == set_probes(bits0, h1, h2, i),
                self.bits().len() == bits0.len(),
                self.set_bits == count_ones(self.bits()),
                old(self).set_bit_count() <= self.set_bits,
            decreases k - i,
        {
            let idx = probe(h1, h2, i, m) as usize;
            let was_set = bv_get(&self.bit_vec, idx);
            proof {
                lemma_count_update_true(self.bits(), idx as int);
                lemma_count_le_len(self.bits().update(idx as int, true));
            }
            if !was_set {
                self.set_bits = self.set_bits + 1;
            }
            bv_set(&mut self.bit_vec, idx);
            i = i + 1;
        }
        proof {
            lemma_set_probes_frame(bits0, h1, h2, k);
            assert forall|o: Seq<u8>|
                old(self).might_contain(o) implies #[trigger] self.might_contain(o) by {
                lemma_probes_preserved(
                    bits0,
                    self.bits(),
                    old(self).digest1(o),
                    old(self).digest2(o),
                    k,
                );
            }
        }
    }

    /// Whether the object is "most likely" in the filter: `Some(true)` when
    /// all of its probe positions are set, `Some(false)` when at least one
    /// is unset.  A false positive is possible; a false negative is not.
    pub fn has(&self, obj: &[u8]) -> (r: Option<bool>)
        requires
            self.wf(),
            obj@.len() <= MAX_ITEM_BYTES,
        ensures
            r == Some(self.might_contain(obj@)),
    {
        let h1 = murmur_digest(obj, self.murmur_seed);
        let h2 = xx_digest(obj, self.xx_seed);
        let m = bv_len(&self.bit_vec) as u64;
        let k = self.num_hashes;
        let mut i: u64 = 0;
        while i < k
            invariant
                i <= k,
                self.wf(),
                m == self.num_bits(),
                m <= usize::MAX,
                k == self.hash_count(),
                h1 == self.digest1(obj@),
                h2 == self.digest2(obj@),
                forall|j: u64| j < i ==> #[trigger] probe_hits(self.bits(), h1, h2, j),
            decreases k - i,
        {
            let idx = probe(h1, h2, i, m) as usize;
            if !bv_get(&self.bit_vec, idx) {
                proof {
                    assert(!probe_hits(self.bits(), h1, h2, i));
                }
                return Some(false);
            }
            i = i + 1;
        }
        Some(true)
    }

    /// No false negatives: an item the filter might contain keeps being
    /// might-contained by every later filter state whose bit array only
    /// grew pointwise, under the same seeds, probe count and bit length —
    /// which is exactly how `set` evolves the filter.  So once `set(x)` has
    /// established `might_contain(x)`, any number of further insertions
    /// later, `has(x)` still answers `Some(true)`.
    pub proof fn lemma_no_false_negatives(before: BloomFilter, after: BloomFilter, obj: Seq<u8>)
        requires
            before.wf(),
            after.seeds() == before.seeds(),
            after.hash_count() == before.hash_count(),
            after.num_bits() == before.num_bits(),
            forall|j: int|
                0 <= j < before.num_bits() && before.bits()[j] ==> #[trigger] after.bits()[j],
            before.might_contain(obj),
        ensures
            after.might_contain(obj),
    {
        lemma_probes_preserved(
            before.bits(),
            after.bits(),
            before.digest1(obj),
            before.digest2(obj),
            before.hash_count(),
        );
    }

    /// The approximate total number of distinct objects set in the filter:
    /// `round(-(m/k) * ln(1 - x/m))` for `m` bits, `k` probes and `x` set
    /// bits, computed in fixed point; the largest `u64` at saturation, where
    /// the formula diverges.  Non-decreasing across insertions.
    pub fn num_items_approx(&self) -> (r: u64)
        requires
            self.wf(),
        ensures
            r as int == crate::estimate::estimate_spec(
                self.num_bits() as u64,
                self.hash_count(),
                self.set_bit_count(),
            ),
    {
        let m = bv_len(&self.bit_vec) as u64;
        proof {
            lemma_count_le_len(self.bits());
        }
        crate::estimate::cardinality_estimate(m, self.num_hashes, self.set_bits)
    }

    /// The length of the bit array, in bits.
    pub fn bit_len(&self) -> (r: u64)
        ensures
            r == self.num_bits(),
    {
        bv_len(&self.bit_vec) as u64
    }

    /// How many hash probes each operation derives per item.
    pub fn hash_fn_count(&self) -> (r: u64)
        ensures
            r == self.hash_count(),
    {
        self.num_hashes
    }

    /// How many bits of the array are currently set.
    pub fn set_bits_count(&self) -> (r: u64)
        ensures
            r == self.set_bit_count(),
    {
        self.set_bits
    }
}

} // verus!
