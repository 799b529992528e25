//! The packed bit array behind the filter, and the counting of set bits.
//!
//! The array itself is `bit_vec::BitVec`; Verus sees it through the
//! uninterpreted contents function `bit_seq` and four small trusted
//! wrappers, one per `BitVec` method the filter calls.

use vstd::prelude::*;

verus! {

#[verifier::external_type_specification]
#[verifier::external_body]
#[verifier::reject_recursive_types(B)]
pub struct ExBitVec<B>(bit_vec::BitVec<B>);

/// The bits held by a `BitVec`, most significant index last.
pub uninterp spec fn bit_seq(bv: bit_vec::BitVec) -> Seq<bool>;

/// Relies on `BitVec::from_elem(len, false)`: a vector of `len` bits, all
/// unset.
#[verifier::external_body]
pub(crate) fn bv_new_unset(len: usize) -> (r: bit_vec::BitVec)
    ensures
        bit_seq(r) == Seq::new(len as nat, |i: int| false),
{
    bit_vec::BitVec::from_elem(len, false)
}

/// Relies on `BitVec::len`: the number of bits held.
#[verifier::external_body]
pub(crate) fn bv_len(bv: &bit_vec::BitVec) -> (r: usize)
    ensures
        r == bit_seq(*bv).len(),
{
    bv.len()
}

/// Relies on `BitVec::get`: `Some(bit i)` whenever `i` is in bounds.
#[verifier::external_body]
pub(crate) fn bv_get(bv: &bit_vec::BitVec, i: usize) -> (r: bool)
    requires
        i < bit_seq(*bv).len(),
    ensures
        r == bit_seq(*bv)[i as int],
{
    bv.get(i).unwrap()
}

/// Relies on `BitVec::set`: sets bit `i`, leaving every other bit alone.
#[verifier::external_body]
pub(crate) fn bv_set(bv: &mut bit_vec::BitVec, i: usize)
    requires
        i < bit_seq(*old(bv)).len(),
    ensures
        bit_seq(*final(bv)) == bit_seq(*old(bv)).update(i as int, true),
{
    bv.set(i, true);
}

/// How many bits of `s` are set.
pub open spec fn count_ones(s: Seq<bool>) -> nat
    decreases s.len(),
{
    if s.len() == 0 {
        0
    } else {
        count_ones(s.drop_last()) + (if s.last() {
            1nat
        } else {
            0nat
        })
    }
}

/// At most every bit is set.
pub proof fn lemma_count_le_len(s: Seq<bool>)
    ensures
        count_ones(s) <= s.len(),
    decreases s.len(),
{
    if s.len() > 0 {
        lemma_count_le_len(s.drop_last());
    }
}

/// A sequence with no set bit counts zero.
pub proof fn lemma_count_none_set(s: Seq<bool>)
    requires
        forall|j: int| 0 <= j < s.len() ==> !s[j],
    ensures
        count_ones(s) == 0,
    decreases s.len(),
{
    if s.len() > 0 {
        lemma_count_none_set(s.drop_last());
    }
}

/// Setting one bit raises the count by one exactly when the bit was unset.
pub proof fn lemma_count_update_true(s: Seq<bool>, j: int)
    requires
        0 <= j < s.len(),
    ensures
        count_ones(s.update(j, true)) == count_ones(s) + (if s[j] {
            0int
        } else {
            1int
        }),
    decreases s.len(),
{
    let s2 = s.update(j, true);
    if j == s.len() - 1 {
        assert(s2.drop_last() =~= s.drop_last());
    } else {
        assert(s2.drop_last() =~= s.drop_last().update(j, true));
        lemma_count_update_true(s.drop_last(), j);
    }
}

} // verus!
