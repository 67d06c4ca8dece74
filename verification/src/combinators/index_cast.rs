//! Casting the indices of a list to a different index type.

use vstd::prelude::*;
use core::marker::PhantomData;
use crate::index_from::IndexFrom;
use crate::index_list::IndexList;
use crate::index_list::UniqueIndexList;
use crate::index_list::bounds_tight_on_axis;
use crate::index_list::index_in_bounds;
use crate::record_index::Bounds;
use crate::record_index::RecordIndex;

verus! {

/// Every index of the list, and the bounds it reports, convert losslessly
/// to the target index type.
pub open spec fn castable<TargetIndex, Indices>(source: Indices) -> bool where
    Indices: IndexList,
    TargetIndex: IndexFrom<Indices::Index> + Copy,
 {
    &&& forall|l: int|
        0 <= l < source.indices().len() ==> TargetIndex::can_convert(
            #[trigger] source.indices()[l],
        )
    &&& match source.spec_bounds() {
        Some(b) => TargetIndex::can_convert(b.offset) && TargetIndex::can_convert(b.extent),
        None => true,
    }
}

/// The sequence of converted indices.
pub open spec fn cast_seq<TargetIndex, SourceIndex>(s: Seq<SourceIndex>) -> Seq<
    TargetIndex,
> where SourceIndex: RecordIndex, TargetIndex: IndexFrom<SourceIndex> {
    Seq::new(s.len(), |l: int| TargetIndex::spec_index_from(s[l]))
}

/// Cast indices in a source index list to the target index type.
///
/// Casting preserves coordinates, so it changes neither which records are
/// denoted nor whether the list is unique.
#[derive(Debug)]
pub struct IndexCast<Indices, TargetIndex> {
    source_indices: Indices,
    marker: PhantomData<TargetIndex>,
}

impl<Indices, TargetIndex> IndexCast<Indices, TargetIndex> where
    Indices: IndexList,
    TargetIndex: IndexFrom<Indices::Index> + Copy,
 {
    /// The list whose indices are being cast.
    pub closed spec fn source(&self) -> Indices {
        self.source_indices
    }

    /// Wrap a source list for casting.
    pub fn new(source_indices: Indices) -> (r: Self)
        requires
            source_indices.wf(),
            castable::<TargetIndex, Indices>(source_indices),
        ensures
            r.wf(),
            r.indices() == cast_seq::<TargetIndex, Indices::Index>(source_indices.indices()),
    {
        IndexCast { source_indices, marker: PhantomData }
    }
}

impl<Indices, TargetIndex> IndexList for IndexCast<Indices, TargetIndex> where
    Indices: IndexList,
    TargetIndex: IndexFrom<Indices::Index> + Copy,
 {
    type Index = TargetIndex;

    closed spec fn wf(&self) -> bool {
        &&& self.source_indices.wf()
        &&& castable::<TargetIndex, Indices>(self.source_indices)
    }

    closed spec fn indices(&self) -> Seq<TargetIndex> {
        cast_seq::<TargetIndex, Indices::Index>(self.source_indices.indices())
    }

    open spec fn always_bounded() -> bool {
        Indices::always_bounded()
    }

    closed spec fn spec_bounds(&self) -> Option<Bounds<TargetIndex>> {
        match self.source_indices.spec_bounds() {
            Some(b) => Some(
                Bounds {
                    offset: TargetIndex::spec_index_from(b.offset),
                    extent: TargetIndex::spec_index_from(b.extent),
                },
            ),
            None => None,
        }
    }

    fn num_indices(&self) -> (n: usize) {
        self.source_indices.num_indices()
    }

    fn get_index_unchecked(&self, loc: usize) -> (i: TargetIndex) {
        let source_idx = self.source_indices.get_index_unchecked(loc);
        TargetIndex::index_from(source_idx)
    }

    fn bounds(&self) -> (b: Option<Bounds<TargetIndex>>) {
        match self.source_indices.bounds() {
            Some(bounds) => {
                let bn = Bounds {
                    offset: TargetIndex::index_from(bounds.offset),
                    extent: TargetIndex::index_from(bounds.extent),
                };
                proof {
                    let s = self.source_indices.indices();
                    let cs = self.indices();
                    TargetIndex::lemma_index_from(bounds.offset);
                    TargetIndex::lemma_index_from(bounds.extent);
                    bounds.offset.lemma_rank();
                    bounds.extent.lemma_rank();
                    bn.offset.lemma_rank();
                    bn.extent.lemma_rank();
                    assert forall|l: int| 0 <= l < cs.len() implies index_in_bounds(
                        #[trigger] cs[l],
                        bn,
                    ) by {
                        TargetIndex::lemma_index_from(s[l]);
                        assert(index_in_bounds(s[l], bounds));
                    }
                    if cs.len() > 0 {
                        assert forall|d: int|
                            0 <= d < <TargetIndex as RecordIndex>::rank() implies #[trigger] bounds_tight_on_axis(
                            cs,
                            bn,
                            d,
                        ) by {
                            assert(bounds_tight_on_axis(s, bounds, d));
                            let l1 = choose|l: int|
                                0 <= l < s.len() && (#[trigger] s[l]).coords()[d]
                                    == bounds.offset.coords()[d];
                            TargetIndex::lemma_index_from(s[l1]);
                            s[l1].lemma_rank();
                            assert(cs[l1].coords()[d] == bn.offset.coords()[d]);
                            let l2 = choose|l: int|
                                0 <= l < s.len() && (#[trigger] s[l]).coords()[d]
                                    == bounds.offset.coords()[d] + bounds.extent.coords()[d] - 1;
                            TargetIndex::lemma_index_from(s[l2]);
                            s[l2].lemma_rank();
                            assert(cs[l2].coords()[d] == bn.offset.coords()[d]
                                + bn.extent.coords()[d] - 1);
                        }
                    }
                }
                Some(bn)
            },
            None => None,
        }
    }
}

impl<Indices, TargetIndex> UniqueIndexList for IndexCast<Indices, TargetIndex> where
    Indices: UniqueIndexList,
    TargetIndex: IndexFrom<Indices::Index> + Copy,
 {
    proof fn lemma_unique(&self) {
        let s = self.source_indices.indices();
        let cs = self.indices();
        self.source_indices.lemma_unique();
        assert forall|l1: int, l2: int| 0 <= l1 < l2 < cs.len() implies cs[l1] != cs[l2] by {
            TargetIndex::lemma_index_from(s[l1]);
            TargetIndex::lemma_index_from(s[l2]);
            if cs[l1] == cs[l2] {
                s[l1].lemma_coords_inj(s[l2]);
            }
        }
    }
}

} // verus!
