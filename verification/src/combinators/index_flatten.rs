//! Flattening of nested tuple indices.
//!
//! Repeated use of the product and zip combinators nests indices, e.g.
//! `((a, b), c)`; flattening reassociates them into a single flat tuple
//! `(a, b, c)` without changing any coordinate.

use vstd::prelude::*;
use crate::index_list::IndexList;
use crate::index_list::UniqueIndexList;
use crate::index_list::bounds_tight_on_axis;
use crate::index_list::index_in_bounds;
use crate::record_index::Bounds;
use crate::record_index::RecordIndex;

verus! {

/// Concatenate tuples, preserving the concatenation of their coordinates.
pub trait Concatenate<T: RecordIndex>: RecordIndex {
    /// The result of concatenating `Self` with `T`.
    type Concatenated: RecordIndex;

    /// The concatenated value.
    spec fn spec_concatenate(self, other: T) -> Self::Concatenated;

    /// Concatenation concatenates coordinates.
    proof fn lemma_concatenate(self, other: T)
        ensures
            self.spec_concatenate(other).coords() == self.coords() + other.coords(),
    ;

    /// Concatenate this index with another.
    fn concatenate(self, other: T) -> (r: Self::Concatenated)
        ensures
            r == self.spec_concatenate(other),
    ;
}

/// Flatten nested tuples, preserving coordinates.
pub trait Flatten: RecordIndex {
    /// The flattened form of `Self`.
    type Flattened: RecordIndex;

    /// The flattened value.
    spec fn spec_flatten(self) -> Self::Flattened;

    /// Flattening preserves the coordinates exactly.
    proof fn lemma_flatten(self)
        ensures
            self.spec_flatten().coords() == self.coords(),
    ;

    /// Flatten this index.
    fn flatten(self) -> (r: Self::Flattened)
        ensures
            r == self.spec_flatten(),
    ;
}

impl Concatenate<usize> for usize {
    type Concatenated = (usize, usize);

    open spec fn spec_concatenate(self, other: usize) -> (usize, usize) {
        (self, other)
    }

    proof fn lemma_concatenate(self, other: usize) {
    }

    fn concatenate(self, other: usize) -> (r: (usize, usize)) {
        (self, other)
    }
}

impl Concatenate<(usize, usize)> for usize {
    type Concatenated = (usize, usize, usize);

    open spec fn spec_concatenate(self, other: (usize, usize)) -> (usize, usize, usize) {
        (self, other.0, other.1)
    }

    proof fn lemma_concatenate(self, other: (usize, usize)) {
        assert(self.spec_concatenate(other).coords() =~= self.coords() + other.coords());
    }

    fn concatenate(self, other: (usize, usize)) -> (r: (usize, usize, usize)) {
        (self, other.0, other.1)
    }
}

impl Concatenate<(usize, usize, usize)> for usize {
    type Concatenated = (usize, usize, usize, usize);

    open spec fn spec_concatenate(self, other: (usize, usize, usize)) -> (
        usize,
        usize,
        usize,
        usize,
    ) {
        (self, other.0, other.1, other.2)
    }

    proof fn lemma_concatenate(self, other: (usize, usize, usize)) {
        assert(self.spec_concatenate(other).coords() =~= self.coords() + other.coords());
    }

    fn concatenate(self, other: (usize, usize, usize)) -> (r: (usize, usize, usize, usize)) {
        (self, other.0, other.1, other.2)
    }
}

impl Concatenate<(usize, usize, usize, usize)> for usize {
    type Concatenated = (usize, usize, usize, usize, usize);

    open spec fn spec_concatenate(self, other: (usize, usize, usize, usize)) -> (
        usize,
        usize,
        usize,
        usize,
        usize,
    ) {
        (self, other.0, other.1, other.2, other.3)
    }

    proof fn lemma_concatenate(self, other: (usize, usize, usize, usize)) {
        assert(self.spec_concatenate(other).coords() =~= self.coords() + other.coords());
    }

    fn concatenate(self, other: (usize, usize, usize, usize)) -> (r: (
        usize,
        usize,
        usize,
        usize,
        usize,
    )) {
        (self, other.0, other.1, other.2, other.3)
    }
}

impl Concatenate<usize> for (usize, usize) {
    type Concatenated = (usize, usize, usize);

    open spec fn spec_concatenate(self, other: usize) -> (usize, usize, usize) {
        (self.0, self.1, other)
    }

    proof fn lemma_concatenate(self, other: usize) {
        assert(self.spec_concatenate(other).coords() =~= self.coords() + other.coords());
    }

    fn concatenate(self, other: usize) -> (r: (usize, usize, usize)) {
        (self.0, self.1, other)
    }
}

impl Concatenate<(usize, usize)> for (usize, usize) {
    type Concatenated = (usize, usize, usize, usize);

    open spec fn spec_concatenate(self, other: (usize, usize)) -> (usize, usize, usize, usize) {
        (self.0, self.1, other.0, other.1)
    }

    proof fn lemma_concatenate(self, other: (usize, usize)) {
        assert(self.spec_concatenate(other).coords() =~= self.coords() + other.coords());
    }

    fn concatenate(self, other: (usize, usize)) -> (r: (usize, usize, usize, usize)) {
        (self.0, self.1, other.0, other.1)
    }
}

impl Concatenate<(usize, usize, usize)> for (usize, usize) {
    type Concatenated = (usize, usize, usize, usize, usize);

    open spec fn spec_concatenate(self, other: (usize, usize, usize)) -> (
        usize,
        usize,
        usize,
        usize,
        usize,
    ) {
        (self.0, self.1, other.0, other.1, other.2)
    }

    proof fn lemma_concatenate(self, other: (usize, usize, usize)) {
        assert(self.spec_concatenate(other).coords() =~= self.coords() + other.coords());
    }

    fn concatenate(self, other: (usize, usize, usize)) -> (r: (
        usize,
        usize,
        usize,
        usize,
        usize,
    )) {
        (self.0, self.1, other.0, other.1, other.2)
    }
}

impl Concatenate<usize> for (usize, usize, usize) {
    type Concatenated = (usize, usize, usize, usize);

    open spec fn spec_concatenate(self, other: usize) -> (usize, usize, usize, usize) {
        (self.0, self.1, self.2, other)
    }

    proof fn lemma_concatenate(self, other: usize) {
        assert(self.spec_concatenate(other).coords() =~= self.coords() + other.coords());
    }

    fn concatenate(self, other: usize) -> (r: (usize, usize, usize, usize)) {
        (self.0, self.1, self.2, other)
    }
}

impl Concatenate<(usize, usize)> for (usize, usize, usize) {
    type Concatenated = (usize, usize, usize, usize, usize);

    open spec fn spec_concatenate(self, other: (usize, usize)) -> (
        usize,
        usize,
        usize,
        usize,
        usize,
    ) {
        (self.0, self.1, self.2, other.0, other.1)
    }

    proof fn lemma_concatenate(self, other: (usize, usize)) {
        assert(self.spec_concatenate(other).coords() =~= self.coords() + other.coords());
    }

    fn concatenate(self, other: (usize, usize)) -> (r: (usize, usize, usize, usize, usize)) {
        (self.0, self.1, self.2, other.0, other.1)
    }
}

impl Concatenate<usize> for (usize, usize, usize, usize) {
    type Concatenated = (usize, usize, usize, usize, usize);

    open spec fn spec_concatenate(self, other: usize) -> (usize, usize, usize, usize, usize) {
        (self.0, self.1, self.2, self.3, other)
    }

    proof fn lemma_concatenate(self, other: usize) {
        assert(self.spec_concatenate(other).coords() =~= self.coords() + other.coords());
    }

    fn concatenate(self, other: usize) -> (r: (usize, usize, usize, usize, usize)) {
        (self.0, self.1, self.2, self.3, other)
    }
}

impl Flatten for usize {
    type Flattened = usize;

    open spec fn spec_flatten(self) -> usize {
        self
    }

    proof fn lemma_flatten(self) {
    }

    fn flatten(self) -> (r: usize) {
        self
    }
}

impl<A: Flatten + Copy, B: Flatten + Copy> Flatten for (A, B) where
    A::Flattened: Concatenate<B::Flattened>,
 {
    type Flattened = <A::Flattened as Concatenate<B::Flattened>>::Concatenated;

    open spec fn spec_flatten(self) -> Self::Flattened {
        self.0.spec_flatten().spec_concatenate(self.1.spec_flatten())
    }

    proof fn lemma_flatten(self) {
        self.0.lemma_flatten();
        self.1.lemma_flatten();
        self.0.spec_flatten().lemma_concatenate(self.1.spec_flatten());
    }

    fn flatten(self) -> (r: Self::Flattened) {
        self.0.flatten().concatenate(self.1.flatten())
    }
}

impl<A: Flatten + Copy, B: Flatten + Copy, C: Flatten + Copy> Flatten for (A, B, C) where
    (A, B): Flatten,
    <(A, B) as Flatten>::Flattened: Concatenate<C::Flattened>,
 {
    type Flattened = <<(A, B) as Flatten>::Flattened as Concatenate<C::Flattened>>::Concatenated;

    open spec fn spec_flatten(self) -> Self::Flattened {
        (self.0, self.1).spec_flatten().spec_concatenate(self.2.spec_flatten())
    }

    proof fn lemma_flatten(self) {
        (self.0, self.1).lemma_flatten();
        self.2.lemma_flatten();
        (self.0, self.1).spec_flatten().lemma_concatenate(self.2.spec_flatten());
    }

    fn flatten(self) -> (r: Self::Flattened) {
        (self.0, self.1).flatten().concatenate(self.2.flatten())
    }
}

impl<A: Flatten + Copy, B: Flatten + Copy, C: Flatten + Copy, D: Flatten + Copy> Flatten for (
    A,
    B,
    C,
    D,
) where (A, B, C): Flatten, <(A, B, C) as Flatten>::Flattened: Concatenate<D::Flattened> {
    type Flattened = <<(A, B, C) as Flatten>::Flattened as Concatenate<
        D::Flattened,
    >>::Concatenated;

    open spec fn spec_flatten(self) -> Self::Flattened {
        (self.0, self.1, self.2).spec_flatten().spec_concatenate(self.3.spec_flatten())
    }

    proof fn lemma_flatten(self) {
        (self.0, self.1, self.2).lemma_flatten();
        self.3.lemma_flatten();
        (self.0, self.1, self.2).spec_flatten().lemma_concatenate(self.3.spec_flatten());
    }

    fn flatten(self) -> (r: Self::Flattened) {
        (self.0, self.1, self.2).flatten().concatenate(self.3.flatten())
    }
}

impl<A: Flatten + Copy, B: Flatten + Copy, C: Flatten + Copy, D: Flatten + Copy, E: Flatten + Copy> Flatten for (A, B, C, D, E) where
    (A, B, C, D): Flatten,
    <(A, B, C, D) as Flatten>::Flattened: Concatenate<E::Flattened>,
 {
    type Flattened = <<(A, B, C, D) as Flatten>::Flattened as Concatenate<
        E::Flattened,
    >>::Concatenated;

    open spec fn spec_flatten(self) -> Self::Flattened {
        (self.0, self.1, self.2, self.3).spec_flatten().spec_concatenate(self.4.spec_flatten())
    }

    proof fn lemma_flatten(self) {
        (self.0, self.1, self.2, self.3).lemma_flatten();
        self.4.lemma_flatten();
        (self.0, self.1, self.2, self.3).spec_flatten().lemma_concatenate(self.4.spec_flatten());
    }

    fn flatten(self) -> (r: Self::Flattened) {
        (self.0, self.1, self.2, self.3).flatten().concatenate(self.4.flatten())
    }
}

/// An index combinator that flattens nested tuple indices.
#[derive(Debug, Clone)]
pub struct IndexFlatten<SourceIndices>(pub SourceIndices);

impl<SourceIndices> IndexList for IndexFlatten<SourceIndices> where
    SourceIndices: IndexList,
    SourceIndices::Index: Flatten,
    <SourceIndices::Index as Flatten>::Flattened: Copy,
 {
    type Index = <SourceIndices::Index as Flatten>::Flattened;

    open spec fn wf(&self) -> bool {
        self.0.wf()
    }

    open spec fn indices(&self) -> Seq<Self::Index> {
        Seq::new(self.0.indices().len(), |l: int| self.0.indices()[l].spec_flatten())
    }

    open spec fn always_bounded() -> bool {
        SourceIndices::always_bounded()
    }

    open spec fn spec_bounds(&self) -> Option<Bounds<Self::Index>> {
        match self.0.spec_bounds() {
            Some(b) => Some(
                Bounds { offset: b.offset.spec_flatten(), extent: b.extent.spec_flatten() },
            ),
            None => None,
        }
    }

    fn num_indices(&self) -> (n: usize) {
        self.0.num_indices()
    }

    fn get_index_unchecked(&self, loc: usize) -> (i: Self::Index) {
        self.0.get_index_unchecked(loc).flatten()
    }

    fn bounds(&self) -> (b: Option<Bounds<Self::Index>>) {
        match self.0.bounds() {
            Some(bounds) => {
                let bn = Bounds { offset: bounds.offset.flatten(), extent: bounds.extent.flatten() };
                proof {
                    let s = self.0.indices();
                    let cs = self.indices();
                    bounds.offset.lemma_flatten();
                    bounds.extent.lemma_flatten();
                    bounds.offset.lemma_rank();
                    bounds.extent.lemma_rank();
                    bn.offset.lemma_rank();
                    assert forall|l: int| 0 <= l < cs.len() implies index_in_bounds(
                        #[trigger] cs[l],
                        bn,
                    ) by {
                        s[l].lemma_flatten();
                        assert(index_in_bounds(s[l], bounds));
                    }
                    if cs.len() > 0 {
                        assert forall|d: int|
                            0 <= d < <Self::Index as RecordIndex>::rank() implies #[trigger] bounds_tight_on_axis(
                            cs,
                            bn,
                            d,
                        ) by {
                            assert(bounds_tight_on_axis(s, bounds, d));
                            let l1 = choose|l: int|
                                0 <= l < s.len() && (#[trigger] s[l]).coords()[d]
                                    == bounds.offset.coords()[d];
                            s[l1].lemma_flatten();
                            assert(cs[l1].coords()[d] == bn.offset.coords()[d]);
                            let l2 = choose|l: int|
                                0 <= l < s.len() && (#[trigger] s[l]).coords()[d]
                                    == bounds.offset.coords()[d] + bounds.extent.coords()[d] - 1;
                            s[l2].lemma_flatten();
                            assert(cs[l2].coords()[d] == bn.offset.coords()[d]
                                + bn.extent.coords()[d] - 1);
                        }
                    }
                }
                Some(bn)
            },
            None => None,
        }
    }
}

impl<SourceIndices> UniqueIndexList for IndexFlatten<SourceIndices> where
    SourceIndices: UniqueIndexList,
    SourceIndices::Index: Flatten,
    <SourceIndices::Index as Flatten>::Flattened: Copy,
 {
    proof fn lemma_unique(&self) {
        let s = self.0.indices();
        let cs = self.indices();
        self.0.lemma_unique();
        assert forall|l1: int, l2: int| 0 <= l1 < l2 < cs.len() implies cs[l1] != cs[l2] by {
            s[l1].lemma_flatten();
            s[l2].lemma_flatten();
            if cs[l1] == cs[l2] {
                s[l1].lemma_coords_inj(s[l2]);
            }
        }
    }
}

} // verus!
