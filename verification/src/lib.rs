//! A Bloom filter: a space-efficient probabilistic set-membership structure.
//!
//! Given an expected item count and a target false-positive rate, the filter
//! answers "possibly present" or "definitely absent" for byte-string items,
//! using a fixed-size bit array and no per-item storage.  Bit positions are
//! derived by enhanced double hashing over two independent 64-bit digests
//! (Murmur3 128-bit folded to 64 bits, and xxHash 64-bit), seeded once per
//! filter instance.
//!
//! Probabilities enter the sizing arithmetic only through their negated
//! natural logarithm, carried as a 32.32 fixed-point integer, so the whole
//! sizing calculation is exact integer arithmetic with a precise contract.

mod bits;
mod bloom;
mod estimate;
mod hashes;
mod probes;
mod sizing;

pub use bits::count_ones;
pub use bloom::BloomFilter;
pub use bloom::ConfigError;
pub use estimate::estimate_spec;
pub use hashes::MAX_ITEM_BYTES;
pub use estimate::lemma_estimate_monotone;
pub use estimate::ln_fixed_spec;
pub use probes::all_probes_set;
pub use probes::lemma_insert_idempotent;
pub use probes::lemma_probes_preserved;
pub use probes::lemma_set_probes_frame;
pub use probes::probe_hits;
pub use probes::probe_index;
pub use probes::set_probes;
pub use sizing::optimal_num_bits;
pub use sizing::optimal_num_hashes;
pub use sizing::DEFAULT_NEG_LN_FP;
pub use sizing::MAX_APPROX_ITEMS;
pub use sizing::MAX_NEG_LN_FP;
pub use sizing::MAX_NUM_BITS;
