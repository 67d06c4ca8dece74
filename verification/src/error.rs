//! Error types used throughout the library.

use vstd::prelude::*;

verus! {

/// An error indicating that indices were out of bounds.
#[derive(Debug, Clone, PartialEq, Eq, Structural)]
pub struct OutOfBounds;

/// An error indicating that the indices in an index list were not unique.
#[derive(Debug, Clone, PartialEq, Eq, Structural)]
pub struct NonUniqueIndex;

} // verus!
