//! The filter as mathematics: a sequence of slots, one boolean each, whose
//! length is the capacity.

use crate::bits::{
    bit_at, lemma_with_bit_keeps, lemma_with_bit_sets, lemma_zeroed_has_no_bit, with_bit, zeroed,
};
use crate::hash::hash_index;
use vstd::prelude::*;

verus! {

/// The slots of a filter that nothing was inserted into.
pub open spec fn empty_slots(capacity: int) -> Seq<bool> {
    Seq::new(capacity as nat, |i: int| false)
}

/// The slots after `key` is inserted: the key's slot is set, the others stay.
pub open spec fn inserted(slots: Seq<bool>, key: Seq<u8>) -> Seq<bool> {
    slots.update(hash_index(key, slots.len() as int), true)
}

/// The slots after every key of `keys` is inserted, first to last.
pub open spec fn inserted_all(slots: Seq<bool>, keys: Seq<Seq<u8>>) -> Seq<bool>
    decreases keys.len(),
{
    if keys.len() == 0 {
        slots
    } else {
        inserted(inserted_all(slots, keys.drop_last()), keys.last())
    }
}

/// What a membership query for `key` answers: whether the key's slot is set.
pub open spec fn reported(slots: Seq<bool>, key: Seq<u8>) -> bool {
    slots[hash_index(key, slots.len() as int)]
}

/// The first `capacity` slots of a packed byte array.
pub open spec fn slots_of(bytes: Seq<u8>, capacity: int) -> Seq<bool> {
    Seq::new(capacity as nat, |i: int| bit_at(bytes, i))
}

/// Zeroed bytes unpack to empty slots.
pub proof fn lemma_slots_of_zeroed(len: int, capacity: int)
    requires
        0 <= capacity <= 8 * len,
    ensures
        slots_of(zeroed(len), capacity) == empty_slots(capacity),
{
    assert forall|i: int| 0 <= i < capacity implies !bit_at(zeroed(len), i) by {
        lemma_zeroed_has_no_bit(len, i);
    }
}

/// Setting a bit in the bytes sets that slot and no other.
pub proof fn lemma_slots_of_with_bit(bytes: Seq<u8>, capacity: int, index: int)
    requires
        0 <= index < capacity <= 8 * bytes.len(),
    ensures
        slots_of(with_bit(bytes, index), capacity) == slots_of(bytes, capacity).update(index, true),
{
    let after = slots_of(with_bit(bytes, index), capacity);
    let expected = slots_of(bytes, capacity).update(index, true);
    assert forall|i: int| 0 <= i < capacity implies after[i] == expected[i] by {
        if i == index {
            lemma_with_bit_sets(bytes, index);
        } else {
            lemma_with_bit_keeps(bytes, index, i);
        }
    }
}

} // verus!
