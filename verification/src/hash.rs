//! The hash index: the slot that a key occupies in a filter of a given
//! capacity.

use vstd::prelude::*;

verus! {

/// The seed of every digest. It is part of the design, not configuration:
/// a key's slot in a filter of a given capacity is the same in every run.
pub const SEED: u64 = 10;

/// The 64-bit digest that `wyhash::wyhash` computes from `bytes` and `seed`.
/// Nothing is said here of which value it is.
pub uninterp spec fn wyhash_digest(bytes: Seq<u8>, seed: u64) -> u64;

/// Hashes `key` under `seed` by one call of `wyhash::wyhash`.
///
/// Assumed, not proved: `wyhash::wyhash` computes with nothing but the bytes
/// and the seed it is given, so equal bytes under equal seeds have equal
/// digests in every run and on every machine, and it returns for every
/// input. Which value the digest is, is left to wyhash.
#[verifier::external_body]
pub(crate) fn seeded_digest(key: &[u8], seed: u64) -> (digest: u64)
    ensures
        digest == wyhash_digest(key@, seed),
{
    wyhash::wyhash(key, seed)
}

/// The slot that a digest selects among `capacity` slots: its remainder,
/// taken on the unsigned 64-bit value.
pub open spec fn digest_index(digest: u64, capacity: int) -> int {
    (digest as int) % capacity
}

/// The slot of `key` in a filter of `capacity` slots.
pub open spec fn hash_index(key: Seq<u8>, capacity: int) -> int {
    digest_index(wyhash_digest(key, SEED), capacity)
}

/// Reduces a digest to a slot of a filter with `size` slots.
pub fn reduce_digest(digest: u64, size: i32) -> (index: i32)
    requires
        size >= 1,
    ensures
        index == digest_index(digest, size as int),
        0 <= index < size,
{
    let modulus: u64 = size as u64;
    let remainder: u64 = digest % modulus;
    remainder as i32
}

} // verus!
