//! Enhanced double hashing: the k probe positions an item touches, derived
//! from its two 64-bit digests, and what inserting those probes does to the
//! bit array.

use vstd::prelude::*;
use vstd::arithmetic::div_mod::lemma_mod_division_less_than_divisor;

verus! {

/// Probe `i` of the pair `(h1, h2)` in a bit array of `m` bits:
/// `(h1 + i*h2 + i^3) mod m`, with the sum taken modulo `2^64` (wrapping),
/// so the result lies in `[0, m)` without any bounds check.
pub open spec fn probe_index(h1: u64, h2: u64, i: u64, m: nat) -> nat
    recommends
        m >= 1,
{
    (h1.wrapping_add(i.wrapping_mul(h2)).wrapping_add(i.wrapping_mul(i).wrapping_mul(i)) as nat)
        % m
}

/// Whether probe `i` of `(h1, h2)` lands on a set bit of `bits`.
pub open spec fn probe_hits(bits: Seq<bool>, h1: u64, h2: u64, i: u64) -> bool
    recommends
        bits.len() >= 1,
{
    bits[probe_index(h1, h2, i, bits.len()) as int]
}

/// Whether all `k` probes of `(h1, h2)` land on set bits: the membership
/// answer of a Bloom filter for an item with these digests.
pub open spec fn all_probes_set(bits: Seq<bool>, h1: u64, h2: u64, k: u64) -> bool
    recommends
        bits.len() >= 1,
{
    forall|i: u64| i < k ==> #[trigger] probe_hits(bits, h1, h2, i)
}

/// The bit array after inserting an item with digests `(h1, h2)`: all `k`
/// probe positions set, every other bit untouched.
pub open spec fn set_probes(bits: Seq<bool>, h1: u64, h2: u64, k: u64) -> Seq<bool>
    recommends
        bits.len() >= 1,
    decreases k,
{
    if k == 0 {
        bits
    } else {
        set_probes(bits, h1, h2, (k - 1) as u64).update(
            probe_index(h1, h2, (k - 1) as u64, bits.len()) as int,
            true,
        )
    }
}

/// Probe `i` of `(h1, h2)` in a bit array of `m` bits, computed with
/// wrapping arithmetic exactly as `probe_index` states it.
pub(crate) fn probe(h1: u64, h2: u64, i: u64, m: u64) -> (r: u64)
    requires
        m >= 1,
    ensures
        r as nat == probe_index(h1, h2, i, m as nat),
        r < m,
{
    let t = h1.wrapping_add(i.wrapping_mul(h2)).wrapping_add(i.wrapping_mul(i).wrapping_mul(i));
    t % m
}

/// Every probe index is in bounds.
pub proof fn lemma_probe_index_in_range(h1: u64, h2: u64, i: u64, m: nat)
    requires
        m >= 1,
    ensures
        probe_index(h1, h2, i, m) < m,
{
    let t = h1.wrapping_add(i.wrapping_mul(h2)).wrapping_add(
        i.wrapping_mul(i).wrapping_mul(i),
    );
    lemma_mod_division_less_than_divisor(t as int, m as int);
}

/// Inserting keeps the length, never unsets a bit, sets nothing but probe
/// positions, and afterwards all `k` probes hit.
pub proof fn lemma_set_probes_frame(bits: Seq<bool>, h1: u64, h2: u64, k: u64)
    requires
        bits.len() >= 1,
    ensures
        set_probes(bits, h1, h2, k).len() == bits.len(),
        forall|j: int|
            0 <= j < bits.len() && bits[j] ==> #[trigger] set_probes(bits, h1, h2, k)[j],
        forall|j: int|
            0 <= j < bits.len() && #[trigger] set_probes(bits, h1, h2, k)[j] ==> bits[j]
                || exists|i: u64| i < k && j == probe_index(h1, h2, i, bits.len()),
        all_probes_set(set_probes(bits, h1, h2, k), h1, h2, k),
    decreases k,
{
    if k == 0 {
    } else {
        let prev = set_probes(bits, h1, h2, (k - 1) as u64);
        let cur = set_probes(bits, h1, h2, k);
        let p = probe_index(h1, h2, (k - 1) as u64, bits.len());
        lemma_set_probes_frame(bits, h1, h2, (k - 1) as u64);
        lemma_probe_index_in_range(h1, h2, (k - 1) as u64, bits.len());
        assert forall|j: int|
            0 <= j < bits.len() && #[trigger] cur[j] implies bits[j] || exists|i: u64|
            i < k && j == probe_index(h1, h2, i, bits.len()) by {
            if j == p {
                let w = (k - 1) as u64;
                assert(w < k && j == probe_index(h1, h2, w, bits.len()));
            } else {
                assert(prev[j] == cur[j]);
                if !bits[j] {
                    let w = choose|i: u64|
                        i < (k - 1) as u64 && j == probe_index(h1, h2, i, bits.len());
                    assert(w < k && j == probe_index(h1, h2, w, bits.len()));
                }
            }
        }
        assert forall|i: u64| i < k implies #[trigger] probe_hits(cur, h1, h2, i) by {
            lemma_probe_index_in_range(h1, h2, i, bits.len());
            if i < (k - 1) as u64 {
                assert(probe_hits(prev, h1, h2, i));
            }
        }
    }
}

/// Inserting an item whose probes all hit already changes nothing.
pub proof fn lemma_set_probes_noop(bits: Seq<bool>, h1: u64, h2: u64, k: u64)
    requires
        bits.len() >= 1,
        all_probes_set(bits, h1, h2, k),
    ensures
        set_probes(bits, h1, h2, k) == bits,
    decreases k,
{
    if k > 0 {
        assert(probe_hits(bits, h1, h2, (k - 1) as u64));
        lemma_set_probes_noop(bits, h1, h2, (k - 1) as u64);
        lemma_probe_index_in_range(h1, h2, (k - 1) as u64, bits.len());
        assert(set_probes(bits, h1, h2, k) =~= bits);
    }
}

/// Idempotence of insertion: inserting the same item twice leaves the bit
/// array exactly as one insertion does.
pub proof fn lemma_insert_idempotent(bits: Seq<bool>, h1: u64, h2: u64, k: u64)
    requires
        bits.len() >= 1,
    ensures
        set_probes(set_probes(bits, h1, h2, k), h1, h2, k) == set_probes(bits, h1, h2, k),
{
    lemma_set_probes_frame(bits, h1, h2, k);
    lemma_set_probes_noop(set_probes(bits, h1, h2, k), h1, h2, k);
}

/// No false negatives: an item whose probes all hit keeps hitting after the
/// bit array grows pointwise, however many other items are inserted.
pub proof fn lemma_probes_preserved(
    before: Seq<bool>,
    after: Seq<bool>,
    h1: u64,
    h2: u64,
    k: u64,
)
    requires
        before.len() >= 1,
        after.len() == before.len(),
        forall|j: int| 0 <= j < before.len() && before[j] ==> #[trigger] after[j],
        all_probes_set(before, h1, h2, k),
    ensures
        all_probes_set(after, h1, h2, k),
{
    assert forall|i: u64| i < k implies #[trigger] probe_hits(after, h1, h2, i) by {
        lemma_probe_index_in_range(h1, h2, i, before.len());
        assert(probe_hits(before, h1, h2, i));
    }
}

} // verus!
