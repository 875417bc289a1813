//! Measuring a filter: how many keys of a sample it reports.

use crate::error::FilterError;
use crate::filter::BloomFilter;
use crate::slots::{empty_slots, inserted_all, reported};
use vstd::prelude::*;

verus! {

/// The byte strings that a vector of keys holds.
pub open spec fn key_seqs(keys: Seq<Vec<u8>>) -> Seq<Seq<u8>> {
    Seq::new(keys.len(), |i: int| keys[i]@)
}

/// How many of `queries`, counted with repetition, a filter with these slots
/// reports as present.
pub open spec fn reported_count(slots: Seq<bool>, queries: Seq<Seq<u8>>) -> nat
    decreases queries.len(),
{
    if queries.len() == 0 {
        0
    } else {
        let rest = reported_count(slots, queries.drop_last());
        if reported(slots, queries.last()) {
            rest + 1
        } else {
            rest
        }
    }
}

/// Fills a fresh filter of `capacity` slots with the keys of `present` and
/// counts the keys of `absent` that it reports. Where no key of `absent` is
/// among `present`, each key counted is a false positive.
pub fn false_positives(
    capacity: i32,
    present: &Vec<Vec<u8>>,
    absent: &Vec<Vec<u8>>,
) -> (measured: Result<usize, FilterError>)
    ensures
        capacity >= 1 <==> measured is Ok,
        measured matches Err(error) ==> error == FilterError::InvalidCapacity,
        measured matches Ok(count) ==> {
            &&& count <= absent@.len()
            &&& count == reported_count(
                inserted_all(empty_slots(capacity as int), key_seqs(present@)),
                key_seqs(absent@),
            )
        },
{
    let mut filter: BloomFilter = match BloomFilter::new(capacity) {
        Ok(filter) => filter,
        Err(error) => {
            return Err(error);
        },
    };
    let ghost keys = key_seqs(present@);
    let mut i: usize = 0;
    while i < present.len()
        invariant
            i <= present.len(),
            keys == key_seqs(present@),
            filter.wf(),
            filter.capacity() == capacity,
            filter@ == inserted_all(empty_slots(capacity as int), keys.take(i as int)),
        decreases present.len() - i,
    {
        filter.add(present[i].as_slice());
        proof {
            assert(keys.take(i + 1).drop_last() =~= keys.take(i as int));
        }
        i += 1;
    }
    proof {
        assert(keys.take(present.len() as int) =~= keys);
    }
    let ghost queries = key_seqs(absent@);
    let mut count: usize = 0;
    let mut j: usize = 0;
    while j < absent.len()
        invariant
            j <= absent.len(),
            queries == key_seqs(absent@),
            filter.wf(),
            count <= j,
            count == reported_count(filter@, queries.take(j as int)),
        decreases absent.len() - j,
    {
        let found: (Vec<u8>, i32, bool) = filter.contains(absent[j].as_slice());
        proof {
            assert(queries.take(j + 1).drop_last() =~= queries.take(j as int));
        }
        if found.2 {
            count += 1;
        }
        j += 1;
    }
    proof {
        assert(queries.take(absent.len() as int) =~= queries);
    }
    Ok(count)
}

} // verus!
