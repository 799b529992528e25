//! Dual hash generator: two independent, well-distributed 64-bit digests per
//! item, from two different hash families (Murmur3 128-bit folded to 64
//! bits, and xxHash 64-bit), each keyed by a per-filter seed.
//!
//! Both digests are pure functions of the bytes and the seed alone, so they
//! carry uninterpreted names that the filter's contracts build on; the seeds
//! themselves come from a randomness source and get no promise at all.

use vstd::prelude::*;

verus! {

/// The longest byte string the hashes accept: the Murmur3 implementation
/// measures its input with a C `int`, so longer slices would be misread.
pub const MAX_ITEM_BYTES: usize = 0x7fff_ffff;

/// The Murmur3 128-bit digest of `bytes` under `seed`, folded to its low 64
/// bits.  A pure function of its two arguments within any one build; the
/// 128-bit variant is chosen per target, so the value is not portable
/// across architectures, which none of the contracts rely on.
pub uninterp spec fn murmur_digest_of(bytes: Seq<u8>, seed: u32) -> u64;

/// The 64-bit xxHash digest of `bytes` under `seed`.  A pure function of
/// its two arguments.
pub uninterp spec fn xx_digest_of(bytes: Seq<u8>, seed: u64) -> u64;

/// Relies on `fasthash::murmur3::hash128_with_seed`: the Murmur3 digest
/// depends on the bytes and the seed alone.  The length bound keeps the
/// input inside what the underlying C code, which takes the length as an
/// `int`, can address.
#[verifier::external_body]
pub(crate) fn murmur_digest(bytes: &[u8], seed: u32) -> (r: u64)
    requires
        bytes@.len() <= MAX_ITEM_BYTES,
    ensures
        r == murmur_digest_of(bytes@, seed),
{
    fasthash::murmur3::hash128_with_seed(bytes, seed) as u64
}

/// Relies on `fasthash::xx::hash64_with_seed`: the xxHash digest depends on
/// the bytes and the seed alone.
#[verifier::external_body]
pub(crate) fn xx_digest(bytes: &[u8], seed: u64) -> (r: u64)
    ensures
        r == xx_digest_of(bytes@, seed),
{
    fasthash::xx::hash64_with_seed(bytes, seed)
}

/// Relies on `fasthash::Seed::gen`: a fresh seed drawn from the thread's
/// random generator.  Nothing is promised of the value.
#[verifier::external_body]
pub(crate) fn random_seed() -> u64 {
    fasthash::Seed::gen().into()
}

} // verus!
