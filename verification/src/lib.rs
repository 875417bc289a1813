//! A single-hash Bloom filter: a fixed array of bit slots addressed by a
//! seeded hash of the key. Membership queries never miss an inserted key and
//! may report a key that was never inserted when it shares a slot with one
//! that was.

pub mod bits;
pub mod error;
pub mod filter;
pub mod hash;
pub mod laws;
pub mod measure;
pub mod slots;

pub use error::FilterError;
pub use filter::BloomFilter;
pub use hash::{digest_index, hash_index, reduce_digest, wyhash_digest, SEED};
pub use measure::false_positives;
