//! The bit vector that backs a stored position, and what is taken on trust
//! about it.
//!
//! Nothing in this file is proved. Each function below hands its arguments to
//! one method of `bit_vec::BitVec` and states what that method does to the
//! sequence of bits it holds.

use bit_vec::BitVec;
use vstd::prelude::*;

verus! {

#[verifier::external_type_specification]
#[verifier::external_body]
#[verifier::reject_recursive_types(B)]
pub struct ExBitVec<B>(BitVec<B>);

/// The bits that a bit vector holds, first bit first. Its length is the
/// number of bits the vector reports through `BitVec::len`.
pub uninterp spec fn bit_seq(v: BitVec<u32>) -> Seq<bool>;

/// `BitVec::from_elem`: a vector of `len` bits, every one equal to `bit`.
#[verifier::external_body]
pub(crate) fn filled(len: usize, bit: bool) -> (v: BitVec<u32>)
    ensures
        bit_seq(v).len() == len,
        forall|i: int| 0 <= i < len ==> bit_seq(v)[i] == bit,
{
    BitVec::from_elem(len, bit)
}

/// `BitVec::get`: the bit at index `i`, or `None` when `i` is not below the
/// vector's length.
#[verifier::external_body]
pub(crate) fn bit_at(v: &BitVec<u32>, i: usize) -> (r: Option<bool>)
    ensures
        r == if i < bit_seq(*v).len() {
            Some(bit_seq(*v)[i as int])
        } else {
            None
        },
{
    v.get(i)
}

/// `BitVec::set`: the bit at index `i` becomes `x` and every other bit keeps
/// its value. The method panics when `i` is out of bounds, so such an index
/// is excluded.
#[verifier::external_body]
pub(crate) fn put_bit(v: &mut BitVec<u32>, i: usize, x: bool)
    requires
        i < bit_seq(*old(v)).len(),
    ensures
        bit_seq(*final(v)) == bit_seq(*old(v)).update(i as int, x),
{
    v.set(i, x)
}

/// `BitVec::clone`: a vector that holds the same bits.
#[verifier::external_body]
pub(crate) fn copied(v: &BitVec<u32>) -> (r: BitVec<u32>)
    ensures
        bit_seq(r) == bit_seq(*v),
{
    v.clone()
}

/// `BitVec::eq`: two vectors are equal exactly when they hold the same bits,
/// that is, as many bits and the same bit at each index.
#[verifier::external_body]
pub(crate) fn same_bits(a: &BitVec<u32>, b: &BitVec<u32>) -> (r: bool)
    ensures
        r == (bit_seq(*a) == bit_seq(*b)),
{
    a == b
}

} // verus!
