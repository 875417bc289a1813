//! Bit slots packed eight to a byte: slot `i` is bit `i % 8` of byte `i / 8`.

use vstd::prelude::*;

verus! {

/// The number of bytes that hold `capacity` bit slots.
pub open spec fn byte_len(capacity: int) -> int {
    (capacity + 7) / 8
}

/// The byte with only bit `offset` set.
pub open spec fn bit_mask(offset: int) -> u8 {
    1u8 << (offset as u8)
}

/// Whether slot `index` is set in `bytes`.
pub open spec fn bit_at(bytes: Seq<u8>, index: int) -> bool {
    bytes[index / 8] & bit_mask(index % 8) != 0
}

/// `bytes` with slot `index` set and every other slot as it was.
pub open spec fn with_bit(bytes: Seq<u8>, index: int) -> Seq<u8> {
    bytes.update(index / 8, bytes[index / 8] | bit_mask(index % 8))
}

/// `len` bytes with no slot set.
pub open spec fn zeroed(len: int) -> Seq<u8> {
    Seq::new(len as nat, |i: int| 0u8)
}

proof fn lemma_or_sets_bit(byte: u8, k: u8)
    by (bit_vector)
    requires
        k < 8,
    ensures
        (byte | (1u8 << k)) & (1u8 << k) != 0,
{
}

proof fn lemma_or_keeps_other_bits(byte: u8, k: u8, j: u8)
    by (bit_vector)
    requires
        k < 8,
        j < 8,
        j != k,
    ensures
        ((byte | (1u8 << k)) & (1u8 << j) != 0) == (byte & (1u8 << j) != 0),
{
}

proof fn lemma_or_twice(byte: u8, k: u8)
    by (bit_vector)
    requires
        k < 8,
    ensures
        (byte | (1u8 << k)) | (1u8 << k) == byte | (1u8 << k),
{
}

proof fn lemma_zero_has_no_bit(k: u8)
    by (bit_vector)
    requires
        k < 8,
    ensures
        0u8 & (1u8 << k) == 0,
{
}

/// A slot that was just set reads as set.
pub proof fn lemma_with_bit_sets(bytes: Seq<u8>, index: int)
    requires
        0 <= index < 8 * bytes.len(),
    ensures
        bit_at(with_bit(bytes, index), index),
{
    lemma_or_sets_bit(bytes[index / 8], (index % 8) as u8);
}

/// Setting one slot leaves every other slot as it was.
pub proof fn lemma_with_bit_keeps(bytes: Seq<u8>, index: int, other: int)
    requires
        0 <= index < 8 * bytes.len(),
        0 <= other < 8 * bytes.len(),
        other != index,
    ensures
        bit_at(with_bit(bytes, index), other) == bit_at(bytes, other),
{
    if other / 8 == index / 8 {
        lemma_or_keeps_other_bits(bytes[index / 8], (index % 8) as u8, (other % 8) as u8);
    }
}

/// Setting a slot a second time changes no byte.
pub proof fn lemma_with_bit_idempotent(bytes: Seq<u8>, index: int)
    requires
        0 <= index < 8 * bytes.len(),
    ensures
        with_bit(with_bit(bytes, index), index) == with_bit(bytes, index),
{
    lemma_or_twice(bytes[index / 8], (index % 8) as u8);
}

/// Freshly zeroed bytes have no slot set.
pub proof fn lemma_zeroed_has_no_bit(len: int, index: int)
    requires
        0 <= index < 8 * len,
    ensures
        !bit_at(zeroed(len), index),
{
    lemma_zero_has_no_bit((index % 8) as u8);
}

} // verus!
