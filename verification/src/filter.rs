//! The filter: a capacity and the packed bit slots.

use crate::bits::{
    bit_at, byte_len, lemma_with_bit_keeps, lemma_zeroed_has_no_bit, with_bit, zeroed,
};
use crate::error::FilterError;
use crate::hash::{hash_index, reduce_digest, seeded_digest, SEED};
use crate::slots::{
    empty_slots, inserted, lemma_slots_of_with_bit, lemma_slots_of_zeroed, reported, slots_of,
};
use vstd::prelude::*;
use vstd::slice::slice_to_vec;

verus! {

/// A set of keys kept as one bit per hash slot. A key is never stored: only
/// the slot it hashes to is marked. A query for an inserted key always
/// answers yes; a query for any other key answers yes when that key shares
/// its slot with an inserted one.
#[derive(Debug)]
pub struct BloomFilter {
    filter: Vec<u8>,
    size: i32,
}

impl View for BloomFilter {
    type V = Seq<bool>;

    /// One boolean per slot, `capacity` of them.
    open spec fn view(&self) -> Seq<bool> {
        slots_of(self.storage(), self.capacity() as int)
    }
}

impl BloomFilter {
    /// The number of slots, fixed when the filter is made.
    pub closed spec fn spec_capacity(&self) -> i32 {
        self.size
    }

    /// The bytes that hold the slots: slot `i` is bit `i % 8` of byte `i / 8`.
    pub closed spec fn storage(&self) -> Seq<u8> {
        self.filter@
    }

    /// What holds of every filter that `new` made and `add` changed: there is
    /// at least one slot, the storage is exactly as long as the slots need,
    /// and no bit beyond the last slot is set.
    pub open spec fn wf(&self) -> bool {
        &&& 1 <= self.capacity()
        &&& self.storage().len() == byte_len(self.capacity() as int)
        &&& forall|i: int|
            self.capacity() <= i < 8 * self.storage().len() ==> !bit_at(self.storage(), i)
    }

    /// Makes a filter of `size` slots, none of them set. A capacity of zero
    /// or less is refused.
    pub fn new(size: i32) -> (made: Result<BloomFilter, FilterError>)
        ensures
            size >= 1 <==> made is Ok,
            made matches Err(error) ==> error == FilterError::InvalidCapacity,
            made matches Ok(filter) ==> {
                &&& filter.wf()
                &&& filter.capacity() == size
                &&& filter.storage() == zeroed(byte_len(size as int))
                &&& filter@ == empty_slots(size as int)
            },
    {
        if size <= 0 {
            return Err(FilterError::InvalidCapacity);
        }
        let slots: usize = size as usize;
        let len: usize = (slots + 7) / 8;
        let filter: Vec<u8> = vec![0u8; len];
        proof {
            assert forall|i: int| size <= i < 8 * len implies !bit_at(filter@, i) by {
                lemma_zeroed_has_no_bit(len as int, i);
            }
            lemma_slots_of_zeroed(len as int, size as int);
        }
        Ok(BloomFilter { filter, size })
    }

    /// Inserts `key`: sets the one slot that the key hashes to. Nothing else
    /// changes, so no slot is ever cleared, and inserting a key again changes
    /// nothing at all.
    pub fn add(&mut self, key: &[u8])
        requires
            old(self).wf(),
        ensures
            final(self).wf(),
            final(self).capacity() == old(self).capacity(),
            final(self).storage() == with_bit(
                old(self).storage(),
                hash_index(key@, old(self).capacity() as int),
            ),
            final(self)@ == inserted(old(self)@, key@),
            forall|i: int| 0 <= i < old(self).capacity() && old(self)@[i] ==> final(self)@[i],
            reported(final(self)@, key@),
    {
        let index: i32 = Self::wyhash(key, self.size);
        self.set_bit(index);
    }

    /// Asks whether `key` may have been inserted. Returns the key, the slot it
    /// hashes to, and whether that slot is set.
    pub fn contains(&self, key: &[u8]) -> (found: (Vec<u8>, i32, bool))
        requires
            self.wf(),
        ensures
            found.0@ == key@,
            found.1 == hash_index(key@, self.capacity() as int),
            found.2 == reported(self@, key@),
            found.2 == bit_at(self.storage(), found.1 as int),
    {
        let index: i32 = Self::wyhash(key, self.size);
        (slice_to_vec(key), index, self.test_bit(index))
    }

    /// The slot of `key` among `size` slots: the key's digest under [`SEED`],
    /// reduced to the range of slots.
    pub fn wyhash(key: &[u8], size: i32) -> (index: i32)
        requires
            size >= 1,
        ensures
            index == hash_index(key@, size as int),
            0 <= index < size,
    {
        reduce_digest(seeded_digest(key, SEED), size)
    }

    /// Sets slot `index` by or-ing its mask into its byte. Every other slot,
    /// and the capacity, stay as they were.
    pub fn set_bit(&mut self, index: i32)
        requires
            old(self).wf(),
            0 <= index < old(self).capacity(),
        ensures
            final(self).wf(),
            final(self).capacity() == old(self).capacity(),
            final(self).storage() == with_bit(old(self).storage(), index as int),
            final(self)@ == old(self)@.update(index as int, true),
            forall|i: int| 0 <= i < old(self).capacity() && old(self)@[i] ==> final(self)@[i],
    {
        let slot: usize = index as usize;
        let byte: usize = slot / 8;
        let offset: u8 = (slot % 8) as u8;
        let current: u8 = self.filter[byte];
        self.filter.set(byte, current | (1u8 << offset));
        proof {
            let before = old(self).storage();
            assert forall|i: int| self.size <= i < 8 * self.filter@.len() implies !bit_at(
                self.filter@,
                i,
            ) by {
                lemma_with_bit_keeps(before, index as int, i);
            }
            lemma_slots_of_with_bit(before, self.size as int, index as int);
        }
    }

    /// Whether slot `index` is set.
    pub fn test_bit(&self, index: i32) -> (set: bool)
        requires
            self.wf(),
            0 <= index < self.capacity(),
        ensures
            set == bit_at(self.storage(), index as int),
            set == self@[index as int],
    {
        let slot: usize = index as usize;
        let byte: usize = slot / 8;
        let offset: u8 = (slot % 8) as u8;
        (self.filter[byte] & (1u8 << offset)) != 0
    }

    /// The number of slots.
    #[verifier::when_used_as_spec(spec_capacity)]
    pub fn capacity(&self) -> (capacity: i32)
        ensures
            capacity == self.spec_capacity(),
    {
        self.size
    }

    /// The bytes that hold the slots.
    pub fn as_bytes(&self) -> (bytes: &[u8])
        ensures
            bytes@ == self.storage(),
    {
        self.filter.as_slice()
    }
}

} // verus!
