//! What the library refuses.

use vstd::prelude::*;

verus! {

/// Why a filter could not be made.
#[derive(Debug, Clone, Copy, PartialEq, Eq, Structural)]
pub enum FilterError {
    /// The requested capacity was zero or negative.
    InvalidCapacity,
}

} // verus!
