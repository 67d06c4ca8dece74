//! Reversing the coordinate order of tuple indices.

use vstd::prelude::*;
use crate::index_list::IndexList;
use crate::index_list::UniqueIndexList;
use crate::index_list::bounds_tight_on_axis;
use crate::index_list::index_in_bounds;
use crate::record_index::Bounds;
use crate::record_index::RecordIndex;

verus! {

/// Transpose an index: reverse the order of its components.
///
/// Transposing permutes the axes of an index, so it preserves uniqueness
/// and maps rectangular bounds to rectangular bounds.
pub trait Transpose: RecordIndex {
    /// The transposed index type.
    type Transposed: RecordIndex;

    /// The transposed value.
    spec fn spec_transpose(self) -> Self::Transposed;

    /// The source axis that axis `d` of the transposed index carries.
    spec fn axis_map(d: int) -> int;

    /// The transposed axis that carries source axis `e`.
    spec fn axis_unmap(e: int) -> int;

    /// Transposing permutes the coordinates according to `axis_map`, and
    /// `axis_unmap` inverts the permutation.
    proof fn lemma_transpose_coords(self)
        ensures
            self.spec_transpose().coords().len() == self.coords().len(),
            forall|d: int|
                0 <= d < self.coords().len() ==> #[trigger] self.spec_transpose().coords()[d]
                    == self.coords()[Self::axis_map(d)] && 0 <= Self::axis_map(d)
                    < self.coords().len(),
            forall|e: int|
                0 <= e < self.coords().len() ==> 0 <= #[trigger] Self::axis_unmap(e)
                    < self.coords().len() && Self::axis_map(Self::axis_unmap(e)) == e,
    ;

    /// Transpose this index.
    fn transpose(self) -> (r: Self::Transposed)
        ensures
            r == self.spec_transpose(),
    ;
}

impl Transpose for usize {
    type Transposed = usize;

    open spec fn spec_transpose(self) -> usize {
        self
    }

    open spec fn axis_map(d: int) -> int {
        d
    }

    open spec fn axis_unmap(e: int) -> int {
        e
    }

    proof fn lemma_transpose_coords(self) {
    }

    fn transpose(self) -> (r: usize) {
        self
    }
}

impl<A: RecordIndex + Copy, B: RecordIndex + Copy> Transpose for (A, B) {
    type Transposed = (B, A);

    open spec fn spec_transpose(self) -> (B, A) {
        (self.1, self.0)
    }

    open spec fn axis_map(d: int) -> int {
        if d < B::rank() {
            A::rank() + d
        } else {
            d - B::rank()
        }
    }

    open spec fn axis_unmap(e: int) -> int {
        if e < A::rank() {
            e + B::rank()
        } else {
            e - A::rank()
        }
    }

    proof fn lemma_transpose_coords(self) {
        self.0.lemma_rank();
        self.1.lemma_rank();
    }

    fn transpose(self) -> (r: (B, A)) {
        (self.1, self.0)
    }
}

/// An index combinator that transposes the indices of a list.
#[derive(Debug, Clone)]
pub struct IndexTranspose<I>(pub I);

impl<I> IndexList for IndexTranspose<I> where
    I: IndexList,
    I::Index: Transpose,
    <I::Index as Transpose>::Transposed: Copy,
 {
    type Index = <I::Index as Transpose>::Transposed;

    open spec fn wf(&self) -> bool {
        self.0.wf()
    }

    open spec fn indices(&self) -> Seq<Self::Index> {
        Seq::new(self.0.indices().len(), |l: int| self.0.indices()[l].spec_transpose())
    }

    open spec fn always_bounded() -> bool {
        I::always_bounded()
    }

    open spec fn spec_bounds(&self) -> Option<Bounds<Self::Index>> {
        match self.0.spec_bounds() {
            Some(b) => Some(
                Bounds { offset: b.offset.spec_transpose(), extent: b.extent.spec_transpose() },
            ),
            None => None,
        }
    }

    fn num_indices(&self) -> (n: usize) {
        self.0.num_indices()
    }

    fn get_index_unchecked(&self, loc: usize) -> (i: Self::Index) {
        let source_idx = self.0.get_index_unchecked(loc);
        source_idx.transpose()
    }

    fn bounds(&self) -> (b: Option<Bounds<Self::Index>>) {
        match self.0.bounds() {
            Some(bounds) => {
                let bn = Bounds {
                    offset: bounds.offset.transpose(),
                    extent: bounds.extent.transpose(),
                };
                proof {
                    let s = self.0.indices();
                    let cs = self.indices();
                    bounds.offset.lemma_rank();
                    bounds.extent.lemma_rank();
                    bounds.offset.lemma_transpose_coords();
                    bounds.extent.lemma_transpose_coords();
                    bn.offset.lemma_rank();
                    bn.extent.lemma_rank();
                    assert forall|l: int| 0 <= l < cs.len() implies index_in_bounds(
                        #[trigger] cs[l],
                        bn,
                    ) by {
                        s[l].lemma_rank();
                        s[l].lemma_transpose_coords();
                        assert(index_in_bounds(s[l], bounds));
                        assert(cs[l] == s[l].spec_transpose());
                        assert forall|d: int|
                            0 <= d < cs[l].coords().len() implies bn.offset.coords()[d]
                            <= #[trigger] cs[l].coords()[d] < bn.offset.coords()[d]
                            + bn.extent.coords()[d] by {
                            let e = <I::Index as Transpose>::axis_map(d);
                            assert(s[l].spec_transpose().coords()[d] == s[l].coords()[e]);
                            assert(bn.offset.coords()[d] == bounds.offset.coords()[e]);
                            assert(bn.extent.coords()[d] == bounds.extent.coords()[e]);
                            assert(s[l].coords()[e] >= bounds.offset.coords()[e]);
                        }
                    }
                    if cs.len() > 0 {
                        assert forall|d: int|
                            0 <= d < <Self::Index as RecordIndex>::rank() implies #[trigger] bounds_tight_on_axis(
                            cs,
                            bn,
                            d,
                        ) by {
                            s[0].lemma_rank();
                            s[0].lemma_transpose_coords();
                            s[0].spec_transpose().lemma_rank();
                            let e = <I::Index as Transpose>::axis_map(d);
                            assert(s[0].spec_transpose().coords()[d] == s[0].coords()[e]);
                            assert(bn.offset.coords()[d] == bounds.offset.coords()[e]);
                            assert(bn.extent.coords()[d] == bounds.extent.coords()[e]);
                            assert(bounds_tight_on_axis(s, bounds, e));
                            let l1 = choose|l: int|
                                0 <= l < s.len() && (#[trigger] s[l]).coords()[e]
                                    == bounds.offset.coords()[e];
                            s[l1].lemma_rank();
                            s[l1].lemma_transpose_coords();
                            assert(cs[l1] == s[l1].spec_transpose());
                            assert(s[l1].spec_transpose().coords()[d] == s[l1].coords()[e]);
                            assert(cs[l1].coords()[d] == bn.offset.coords()[d]);
                            let l2 = choose|l: int|
                                0 <= l < s.len() && (#[trigger] s[l]).coords()[e]
                                    == bounds.offset.coords()[e] + bounds.extent.coords()[e] - 1;
                            s[l2].lemma_rank();
                            s[l2].lemma_transpose_coords();
                            assert(cs[l2] == s[l2].spec_transpose());
                            assert(s[l2].spec_transpose().coords()[d] == s[l2].coords()[e]);
                            assert(cs[l2].coords()[d] == bn.offset.coords()[d]
                                + bn.extent.coords()[d] - 1);
                        }
                    }
                }
                Some(bn)
            },
            None => None,
        }
    }
}

impl<I> UniqueIndexList for IndexTranspose<I> where
    I: UniqueIndexList,
    I::Index: Transpose,
    <I::Index as Transpose>::Transposed: Copy,
 {
    proof fn lemma_unique(&self) {
        let s = self.0.indices();
        let cs = self.indices();
        self.0.lemma_unique();
        assert forall|l1: int, l2: int| 0 <= l1 < l2 < cs.len() implies cs[l1] != cs[l2] by {
            s[l1].lemma_rank();
            s[l2].lemma_rank();
            s[l1].lemma_transpose_coords();
            s[l2].lemma_transpose_coords();
            if cs[l1] == cs[l2] {
                assert forall|e: int| 0 <= e < s[l1].coords().len() implies s[l1].coords()[e]
                    == s[l2].coords()[e] by {
                    let d = <I::Index as Transpose>::axis_unmap(e);
                    assert(cs[l1].coords()[d] == cs[l2].coords()[d]);
                }
                assert(s[l1].coords() =~= s[l2].coords());
                s[l1].lemma_coords_inj(s[l2]);
            }
        }
    }
}

} // verus!
