//! An index list whose uniqueness the caller establishes.

use vstd::prelude::*;
use crate::index_list::IndexList;
use crate::index_list::UniqueIndexList;
use crate::index_list::distinct_indices;
use crate::record_index::Bounds;

verus! {

/// A list of indices that are unique by the caller's proof.
///
/// Where the structure of a list guarantees distinct indices but no
/// combinator expresses that structure, the caller may wrap the list here,
/// discharging the uniqueness obligation at construction.
#[derive(Debug, Clone)]
pub struct AssumedUnique<Indices> {
    indices: Indices,
}

impl<Indices: IndexList> AssumedUnique<Indices> {
    /// Wraps an index list whose indices the caller has proven distinct.
    pub fn assume_unique(indices: Indices) -> (r: Self)
        requires
            indices.wf(),
            distinct_indices(indices.indices()),
        ensures
            r.wf(),
            r.indices() == indices.indices(),
    {
        AssumedUnique { indices }
    }
}

impl<Indices: IndexList> IndexList for AssumedUnique<Indices> {
    type Index = Indices::Index;

    closed spec fn wf(&self) -> bool {
        &&& self.indices.wf()
        &&& distinct_indices(self.indices.indices())
    }

    closed spec fn indices(&self) -> Seq<Self::Index> {
        self.indices.indices()
    }

    open spec fn always_bounded() -> bool {
        Indices::always_bounded()
    }

    closed spec fn spec_bounds(&self) -> Option<Bounds<Self::Index>> {
        self.indices.spec_bounds()
    }

    fn num_indices(&self) -> (n: usize) {
        self.indices.num_indices()
    }

    fn get_index_unchecked(&self, loc: usize) -> (i: Self::Index) {
        self.indices.get_index_unchecked(loc)
    }

    fn bounds(&self) -> (b: Option<Bounds<Self::Index>>) {
        self.indices.bounds()
    }
}

impl<Indices: IndexList> UniqueIndexList for AssumedUnique<Indices> {
    proof fn lemma_unique(&self) {
    }
}

} // verus!
