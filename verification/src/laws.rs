//! What holds of every filter, stated over the slots that the filter's
//! contracts speak of.

use crate::bits::{lemma_with_bit_idempotent, with_bit};
use crate::hash::{hash_index, wyhash_digest, SEED};
use crate::measure::reported_count;
use crate::slots::{empty_slots, inserted, inserted_all, reported};
use vstd::arithmetic::div_mod::{lemma_fundamental_div_mod, lemma_mod_mod};
use vstd::prelude::*;

verus! {

/// Whether some key of `keys` shares its slot with `query` in a filter of
/// `capacity` slots.
pub open spec fn collides(keys: Seq<Seq<u8>>, query: Seq<u8>, capacity: int) -> bool {
    exists|j: int|
        0 <= j < keys.len()
            && #[trigger] hash_index(keys[j], capacity) == hash_index(query, capacity)
}

/// The hash index of every key lies within the capacity.
pub proof fn hash_index_in_range(key: Seq<u8>, capacity: int)
    requires
        capacity >= 1,
    ensures
        0 <= hash_index(key, capacity) < capacity,
{
}

/// The hash index depends on nothing but the key's bytes and the capacity:
/// asked again for the same two, it is the same.
pub proof fn hash_index_is_deterministic(
    key: Seq<u8>,
    capacity: int,
    same_key: Seq<u8>,
    same_capacity: int,
)
    requires
        key =~= same_key,
        capacity == same_capacity,
    ensures
        hash_index(key, capacity) == hash_index(same_key, same_capacity),
{
}

/// Inserting changes neither the capacity nor any slot that is set.
pub proof fn insert_only_sets(slots: Seq<bool>, key: Seq<u8>)
    requires
        slots.len() >= 1,
    ensures
        inserted(slots, key).len() == slots.len(),
        forall|i: int| 0 <= i < slots.len() && slots[i] ==> #[trigger] inserted(slots, key)[i],
        forall|i: int|
            0 <= i < slots.len() && i != hash_index(key, slots.len() as int)
                ==> #[trigger] inserted(slots, key)[i] == slots[i],
{
}

/// Any number of insertions change neither the capacity nor any slot that is
/// set.
pub proof fn insert_all_only_sets(slots: Seq<bool>, keys: Seq<Seq<u8>>)
    requires
        slots.len() >= 1,
    ensures
        inserted_all(slots, keys).len() == slots.len(),
        forall|i: int|
            0 <= i < slots.len() && slots[i] ==> #[trigger] inserted_all(slots, keys)[i],
    decreases keys.len(),
{
    if keys.len() > 0 {
        insert_all_only_sets(slots, keys.drop_last());
        insert_only_sets(inserted_all(slots, keys.drop_last()), keys.last());
    }
}

/// No false negatives: once a key is inserted, a query for it answers yes,
/// whatever was inserted before and whatever is inserted afterwards.
pub proof fn no_false_negatives(slots: Seq<bool>, key: Seq<u8>, later: Seq<Seq<u8>>)
    requires
        slots.len() >= 1,
    ensures
        reported(inserted_all(inserted(slots, key), later), key),
{
    insert_only_sets(slots, key);
    insert_all_only_sets(inserted(slots, key), later);
}

/// Inserting a key a second time leaves every slot as the first insertion
/// left it.
pub proof fn insert_is_idempotent(slots: Seq<bool>, key: Seq<u8>)
    requires
        slots.len() >= 1,
    ensures
        inserted(inserted(slots, key), key) == inserted(slots, key),
{
}

/// Inserting a key a second time leaves every byte of the storage as the
/// first insertion left it.
pub proof fn insert_is_idempotent_on_storage(bytes: Seq<u8>, capacity: int, key: Seq<u8>)
    requires
        1 <= capacity <= 8 * bytes.len(),
    ensures
        with_bit(with_bit(bytes, hash_index(key, capacity)), hash_index(key, capacity))
            == with_bit(bytes, hash_index(key, capacity)),
{
    lemma_with_bit_idempotent(bytes, hash_index(key, capacity));
}

/// The order of two insertions does not matter.
pub proof fn insert_commutes(slots: Seq<bool>, first: Seq<u8>, second: Seq<u8>)
    requires
        slots.len() >= 1,
    ensures
        inserted(inserted(slots, first), second) == inserted(inserted(slots, second), first),
{
}

/// A filter with a single slot is saturated by its first insertion: from
/// then on a query for any key answers yes.
pub proof fn single_slot_saturates(
    slots: Seq<bool>,
    key: Seq<u8>,
    later: Seq<Seq<u8>>,
    query: Seq<u8>,
)
    requires
        slots.len() == 1,
    ensures
        reported(inserted_all(inserted(slots, key), later), query),
{
    insert_only_sets(slots, key);
    insert_all_only_sets(inserted(slots, key), later);
}

/// A query answers yes exactly when its slot was set before or one of the
/// keys inserted since shares the slot.
pub proof fn reported_iff_set_or_collision(slots: Seq<bool>, keys: Seq<Seq<u8>>, query: Seq<u8>)
    requires
        slots.len() >= 1,
    ensures
        reported(inserted_all(slots, keys), query) <==> reported(slots, query)
            || collides(keys, query, slots.len() as int),
    decreases keys.len(),
{
    let capacity = slots.len() as int;
    if keys.len() > 0 {
        let earlier = keys.drop_last();
        reported_iff_set_or_collision(slots, earlier, query);
        insert_all_only_sets(slots, earlier);
        insert_only_sets(inserted_all(slots, earlier), keys.last());
        if collides(earlier, query, capacity) {
            let j = choose|j: int|
                0 <= j < earlier.len()
                    && #[trigger] hash_index(earlier[j], capacity) == hash_index(query, capacity);
            assert(hash_index(keys[j], capacity) == hash_index(query, capacity));
        }
        if hash_index(keys.last(), capacity) == hash_index(query, capacity) {
            assert(hash_index(keys[keys.len() - 1], capacity) == hash_index(query, capacity));
        }
        if collides(keys, query, capacity) {
            let j = choose|j: int|
                0 <= j < keys.len()
                    && #[trigger] hash_index(keys[j], capacity) == hash_index(query, capacity);
            if j < earlier.len() {
                assert(hash_index(earlier[j], capacity) == hash_index(query, capacity));
            }
        }
    }
}

/// False positives come from collisions and from nothing else: a filter
/// that started empty answers yes for a key exactly when one of the inserted
/// keys hashes to the same slot.
pub proof fn reported_iff_collision(capacity: int, keys: Seq<Seq<u8>>, query: Seq<u8>)
    requires
        capacity >= 1,
    ensures
        reported(inserted_all(empty_slots(capacity), keys), query)
            <==> collides(keys, query, capacity),
{
    reported_iff_set_or_collision(empty_slots(capacity), keys, query);
}

/// Keys that share a slot among `capacity` slots still share one when the
/// capacity shrinks to one of its divisors.
pub proof fn shared_slot_survives_division(
    key: Seq<u8>,
    other: Seq<u8>,
    capacity: int,
    divisor: int,
)
    requires
        divisor >= 1,
        capacity >= 1,
        capacity % divisor == 0,
        hash_index(key, capacity) == hash_index(other, capacity),
    ensures
        hash_index(key, divisor) == hash_index(other, divisor),
{
    let factor = capacity / divisor;
    lemma_fundamental_div_mod(capacity, divisor);
    assert(factor >= 1) by (nonlinear_arith)
        requires
            capacity == divisor * factor,
            capacity >= 1,
            divisor >= 1,
    ;
    lemma_mod_mod(wyhash_digest(key, SEED) as int, divisor, factor);
    lemma_mod_mod(wyhash_digest(other, SEED) as int, divisor, factor);
}

/// A filter that started empty and shrank to a divisor of its capacity
/// still reports every key that the larger one reports for the same
/// insertions.
pub proof fn reported_survives_division(
    keys: Seq<Seq<u8>>,
    query: Seq<u8>,
    capacity: int,
    divisor: int,
)
    requires
        divisor >= 1,
        capacity >= 1,
        capacity % divisor == 0,
        reported(inserted_all(empty_slots(capacity), keys), query),
    ensures
        reported(inserted_all(empty_slots(divisor), keys), query),
{
    reported_iff_collision(capacity, keys, query);
    reported_iff_collision(divisor, keys, query);
    let j = choose|j: int|
        0 <= j < keys.len()
            && #[trigger] hash_index(keys[j], capacity) == hash_index(query, capacity);
    shared_slot_survives_division(keys[j], query, capacity, divisor);
}

/// For the same insertions and the same queries, a filter whose capacity
/// divides that of another reports at least as many of the queries.
pub proof fn fewer_slots_report_no_less(
    keys: Seq<Seq<u8>>,
    queries: Seq<Seq<u8>>,
    capacity: int,
    divisor: int,
)
    requires
        divisor >= 1,
        capacity >= 1,
        capacity % divisor == 0,
    ensures
        reported_count(inserted_all(empty_slots(capacity), keys), queries)
            <= reported_count(inserted_all(empty_slots(divisor), keys), queries),
    decreases queries.len(),
{
    if queries.len() > 0 {
        fewer_slots_report_no_less(keys, queries.drop_last(), capacity, divisor);
        if reported(inserted_all(empty_slots(capacity), keys), queries.last()) {
            reported_survives_division(keys, queries.last(), capacity, divisor);
        }
    }
}

} // verus!
