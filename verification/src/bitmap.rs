//! The bitmap store: a fixed-length run of bits kept in a `bit_vec::BitVec`.
//!
//! The bit vector is an outside collection. What it holds is named by
//! [`bit_values`], and the methods the store relies on are given
//! contracts over that name; those contracts are believed, not proved.

use bit_vec::BitVec;
use vstd::prelude::*;

verus! {

/// `bit_vec::BitVec`, carried as an opaque value: nothing inside it is read
/// but through the functions below.
#[verifier::external_type_specification]
#[verifier::external_body]
#[verifier::reject_recursive_types(B)]
pub struct ExBitVec<B>(BitVec<B>);

/// The bits that a bit vector holds, in index order.
pub uninterp spec fn bit_values(bits: BitVec) -> Seq<bool>;

/// `BitVec::from_elem`: a bit vector of `len` bits, each equal to `bit`.
#[verifier::external_body]
fn bits_from_elem(len: usize, bit: bool) -> (bits: BitVec)
    ensures
        bit_values(bits) == Seq::new(len as nat, |i: int| bit),
{
    BitVec::from_elem(len, bit)
}

/// `BitVec::len`: the number of bits held.
#[verifier::external_body]
fn bits_len(bits: &BitVec) -> (len: usize)
    ensures
        len == bit_values(*bits).len(),
{
    bits.len()
}

/// `BitVec::get`: the bit at index `i`, or `None` when `i` is not below the
/// length.
#[verifier::external_body]
fn bits_get(bits: &BitVec, i: usize) -> (bit: Option<bool>)
    ensures
        i < bit_values(*bits).len() ==> bit == Some(bit_values(*bits)[i as int]),
        i >= bit_values(*bits).len() ==> bit.is_none(),
{
    bits.get(i)
}

/// `BitVec::set`: gives the bit at index `i` the value `x` and leaves every
/// other bit and the length as they were. The method panics when `i` is not
/// below the length, so such an index is not admitted.
#[verifier::external_body]
fn bits_set(bits: &mut BitVec, i: usize, x: bool)
    requires
        i < bit_values(*old(bits)).len(),
    ensures
        bit_values(*final(bits)) == bit_values(*old(bits)).update(i as int, x),
{
    bits.set(i, x)
}

/// `BitVec::fill`: gives every bit the value `bit` and keeps the length.
#[verifier::external_body]
fn bits_fill(bits: &mut BitVec, bit: bool)
    ensures
        bit_values(*final(bits)) == Seq::new(bit_values(*old(bits)).len(), |i: int| bit),
{
    bits.fill(bit)
}

/// A fixed-length store of bits.
pub struct Bitmap {
    bits: BitVec,
}

impl View for Bitmap {
    type V = Seq<bool>;

    closed spec fn view(&self) -> Seq<bool> {
        bit_values(self.bits)
    }
}

/// `len` bits, all zero.
pub open spec fn zeros(len: nat) -> Seq<bool> {
    Seq::new(len, |i: int| false)
}

impl Bitmap {
    /// A store of `len` bits, all zero.
    pub fn new(len: usize) -> (store: Bitmap)
        ensures
            store@ == zeros(len as nat),
    {
        Bitmap { bits: bits_from_elem(len, false) }
    }

    /// The number of bits in the store.
    pub fn len(&self) -> (len: usize)
        ensures
            len == self@.len(),
    {
        bits_len(&self.bits)
    }

    /// Sets the bit at `index` to one. Setting a bit that is already one
    /// changes nothing.
    pub fn set_bit(&mut self, index: usize)
        requires
            index < old(self)@.len(),
        ensures
            final(self)@ == old(self)@.update(index as int, true),
    {
        bits_set(&mut self.bits, index, true);
    }

    /// Reads the bit at `index`.
    pub fn get_bit(&self, index: usize) -> (bit: bool)
        requires
            index < self@.len(),
        ensures
            bit == self@[index as int],
    {
        bits_get(&self.bits, index).unwrap()
    }

    /// Resets every bit to zero. The length stays.
    pub fn clear_all(&mut self)
        ensures
            final(self)@ == zeros(old(self)@.len()),
    {
        bits_fill(&mut self.bits, false);
    }
}

} // verus!
