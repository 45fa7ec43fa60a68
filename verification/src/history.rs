//! The bit vector of a history, from the `bit-vec` crate.

use vstd::prelude::*;
use bit_vec::BitVec;

verus! {

/// The bit vector of the `bit-vec` crate.
#[verifier::external_type_specification]
#[verifier::external_body]
#[verifier::reject_recursive_types(B)]
pub struct ExBitVec<B>(bit_vec::BitVec<B>);

/// The bits that a bit vector holds.
pub uninterp spec fn history_bits(history: BitVec<u32>) -> Seq<bool>;

/// `BitVec::from_elem`: the contract claims that the vector holds `nbits` bits, all of them
/// `bit`.
#[verifier::external_body]
pub(crate) fn bits_from_elem(nbits: usize, bit: bool) -> (history: BitVec<u32>)
    ensures
        history_bits(history) == Seq::new(nbits as nat, |i: int| bit),
{
    BitVec::from_elem(nbits, bit)
}

/// `BitVec::get`: the contract claims that it returns the bit at place `i`, and nothing
/// beyond the end.
#[verifier::external_body]
pub(crate) fn bit_at(history: &BitVec<u32>, i: usize) -> (bit: Option<bool>)
    ensures
        bit == if i < history_bits(*history).len() {
            Some(history_bits(*history)[i as int])
        } else {
            None
        },
{
    history.get(i)
}

/// `BitVec::set`: the contract claims that it changes the bit at place `i` and no other. The
/// place has to lie within the vector.
#[verifier::external_body]
pub(crate) fn set_bit(history: &mut BitVec<u32>, i: usize, bit: bool)
    requires
        i < history_bits(*old(history)).len(),
    ensures
        history_bits(*final(history)) == history_bits(*old(history)).update(i as int, bit),
{
    history.set(i, bit)
}

/// `BitVec::clone`: the contract claims that the copy holds the same bits.
#[verifier::external_body]
pub(crate) fn copy_bits(history: &BitVec<u32>) -> (copy: BitVec<u32>)
    ensures
        history_bits(copy) == history_bits(*history),
{
    history.clone()
}

} // verus!
