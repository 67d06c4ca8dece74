//! Positional pairing of two equal-length index lists.

use vstd::prelude::*;
use crate::index_list::IndexList;
use crate::index_list::UniqueIndexList;
use crate::index_list::bounds_tight_on_axis;
use crate::index_list::index_in_bounds;
use crate::index_list::list_bounds_ok;
use crate::record_index::Bounds;
use crate::record_index::RecordIndex;
use crate::record_index::lemma_cib_concat;

verus! {

/// The sequence of positional pairs of two equal-length sequences.
pub open spec fn zip_seq<IA, IB>(sa: Seq<IA>, sb: Seq<IB>) -> Seq<(IA, IB)> {
    Seq::new(sa.len(), |l: int| (sa[l], sb[l]))
}

/// The zip of correct, tight component bounds is correct and tight for the
/// zipped list.
proof fn lemma_zip_bounds_ok<IA: RecordIndex + Copy, IB: RecordIndex + Copy>(
    sa: Seq<IA>,
    sb: Seq<IB>,
    ab: Bounds<IA>,
    bb: Bounds<IB>,
    bn: Bounds<(IA, IB)>,
)
    requires
        sa.len() == sb.len(),
        list_bounds_ok(sa, ab),
        list_bounds_ok(sb, bb),
        bn == (Bounds { offset: (ab.offset, bb.offset), extent: (ab.extent, bb.extent) }),
    ensures
        list_bounds_ok(zip_seq(sa, sb), bn),
{
    let cs = zip_seq(sa, sb);
    ab.offset.lemma_rank();
    ab.extent.lemma_rank();
    bb.offset.lemma_rank();
    bb.extent.lemma_rank();
    assert forall|l: int| 0 <= l < cs.len() implies index_in_bounds(#[trigger] cs[l], bn) by {
        assert(index_in_bounds(sa[l], ab));
        assert(index_in_bounds(sb[l], bb));
        sa[l].lemma_rank();
        sb[l].lemma_rank();
        lemma_cib_concat(
            sa[l].coords(),
            ab.offset.coords(),
            ab.extent.coords(),
            sb[l].coords(),
            bb.offset.coords(),
            bb.extent.coords(),
        );
    }
    if cs.len() > 0 {
        let ra = <IA as RecordIndex>::rank() as int;
        assert forall|d: int|
            0 <= d < <(IA, IB) as RecordIndex>::rank() implies #[trigger] bounds_tight_on_axis(
            cs,
            bn,
            d,
        ) by {
            if d < ra {
                assert(bounds_tight_on_axis(sa, ab, d));
                let l1 = choose|l: int|
                    0 <= l < sa.len() && (#[trigger] sa[l]).coords()[d] == ab.offset.coords()[d];
                let l2 = choose|l: int|
                    0 <= l < sa.len() && (#[trigger] sa[l]).coords()[d] == ab.offset.coords()[d]
                        + ab.extent.coords()[d] - 1;
                sa[l1].lemma_rank();
                sa[l2].lemma_rank();
                assert(cs[l1] == (sa[l1], sb[l1]));
                assert(cs[l2] == (sa[l2], sb[l2]));
                assert(cs[l1].coords()[d] == bn.offset.coords()[d]);
                assert(cs[l2].coords()[d] == bn.offset.coords()[d] + bn.extent.coords()[d] - 1);
            } else {
                assert(bounds_tight_on_axis(sb, bb, d - ra));
                let l1 = choose|l: int|
                    0 <= l < sb.len() && (#[trigger] sb[l]).coords()[d - ra] == bb.offset.coords()[d
                        - ra];
                let l2 = choose|l: int|
                    0 <= l < sb.len() && (#[trigger] sb[l]).coords()[d - ra] == bb.offset.coords()[d
                        - ra] + bb.extent.coords()[d - ra] - 1;
                sa[l1].lemma_rank();
                sa[l2].lemma_rank();
                sb[l1].lemma_rank();
                sb[l2].lemma_rank();
                assert(cs[l1] == (sa[l1], sb[l1]));
                assert(cs[l2] == (sa[l2], sb[l2]));
                assert(cs[l1].coords()[d] == bn.offset.coords()[d]);
                assert(cs[l2].coords()[d] == bn.offset.coords()[d] + bn.extent.coords()[d] - 1);
            }
        }
    }
}

/// The result of zipping two *equal-length* index lists: location `loc`
/// maps to the pair of the indices at `loc` in each list.
///
/// The zipped indices are unique if *either* operand's indices are unique.
/// The type system tracks only one side, so [`IndexZip`] is unique when the
/// *first* list is; use [`IndexAZip`] when only the second list is unique.
#[derive(Debug, Clone)]
pub struct IndexZip<A, B>(A, B);

impl<A, B> IndexZip<A, B> where A: IndexList, B: IndexList, A::Index: Copy, B::Index: Copy {
    /// Zip two index lists of equal length.
    pub fn new(a: A, b: B) -> (r: Self)
        requires
            a.wf(),
            b.wf(),
            a.indices().len() == b.indices().len(),
        ensures
            r.wf(),
            r.indices() == zip_seq(a.indices(), b.indices()),
    {
        IndexZip(a, b)
    }
}

impl<A, B> IndexList for IndexZip<A, B> where
    A: IndexList,
    B: IndexList,
    A::Index: Copy,
    B::Index: Copy,
 {
    type Index = (A::Index, B::Index);

    closed spec fn wf(&self) -> bool {
        &&& self.0.wf()
        &&& self.1.wf()
        &&& self.0.indices().len() == self.1.indices().len()
    }

    closed spec fn indices(&self) -> Seq<(A::Index, B::Index)> {
        zip_seq(self.0.indices(), self.1.indices())
    }

    open spec fn always_bounded() -> bool {
        A::always_bounded() && B::always_bounded()
    }

    closed spec fn spec_bounds(&self) -> Option<Bounds<(A::Index, B::Index)>> {
        match (self.0.spec_bounds(), self.1.spec_bounds()) {
            (Some(ab), Some(bb)) => Some(
                Bounds { offset: (ab.offset, bb.offset), extent: (ab.extent, bb.extent) },
            ),
            _ => None,
        }
    }

    fn num_indices(&self) -> (n: usize) {
        self.0.num_indices()
    }

    fn get_index_unchecked(&self, loc: usize) -> (i: (A::Index, B::Index)) {
        (self.0.get_index_unchecked(loc), self.1.get_index_unchecked(loc))
    }

    fn bounds(&self) -> (b: Option<Bounds<(A::Index, B::Index)>>) {
        let ba = self.0.bounds();
        let bb = self.1.bounds();
        match (ba, bb) {
            (Some(ab), Some(bb)) => {
                let bn = Bounds { offset: (ab.offset, bb.offset), extent: (ab.extent, bb.extent) };
                proof {
                    lemma_zip_bounds_ok(self.0.indices(), self.1.indices(), ab, bb, bn);
                }
                Some(bn)
            },
            _ => None,
        }
    }
}

impl<A, B> UniqueIndexList for IndexZip<A, B> where
    A: UniqueIndexList,
    B: IndexList,
    A::Index: Copy,
    B::Index: Copy,
 {
    proof fn lemma_unique(&self) {
        self.0.lemma_unique();
        let cs = self.indices();
        assert forall|l1: int, l2: int| 0 <= l1 < l2 < cs.len() implies cs[l1] != cs[l2] by {
            if cs[l1] == cs[l2] {
                assert(self.0.indices()[l1] == self.0.indices()[l2]);
            }
        }
    }
}

/// [`IndexZip`] where uniqueness is determined by the *second* operand.
#[derive(Debug, Clone)]
pub struct IndexAZip<A, B>(A, B);

impl<A, B> IndexAZip<A, B> where A: IndexList, B: IndexList, A::Index: Copy, B::Index: Copy {
    /// Zip two index lists of equal length.
    pub fn new(a: A, b: B) -> (r: Self)
        requires
            a.wf(),
            b.wf(),
            a.indices().len() == b.indices().len(),
        ensures
            r.wf(),
            r.indices() == zip_seq(a.indices(), b.indices()),
    {
        IndexAZip(a, b)
    }
}

impl<A, B> IndexList for IndexAZip<A, B> where
    A: IndexList,
    B: IndexList,
    A::Index: Copy,
    B::Index: Copy,
 {
    type Index = (A::Index, B::Index);

    closed spec fn wf(&self) -> bool {
        &&& self.0.wf()
        &&& self.1.wf()
        &&& self.0.indices().len() == self.1.indices().len()
    }

    closed spec fn indices(&self) -> Seq<(A::Index, B::Index)> {
        zip_seq(self.0.indices(), self.1.indices())
    }

    open spec fn always_bounded() -> bool {
        A::always_bounded() && B::always_bounded()
    }

    closed spec fn spec_bounds(&self) -> Option<Bounds<(A::Index, B::Index)>> {
        match (self.0.spec_bounds(), self.1.spec_bounds()) {
            (Some(ab), Some(bb)) => Some(
                Bounds { offset: (ab.offset, bb.offset), extent: (ab.extent, bb.extent) },
            ),
            _ => None,
        }
    }

    fn num_indices(&self) -> (n: usize) {
        self.0.num_indices()
    }

    fn get_index_unchecked(&self, loc: usize) -> (i: (A::Index, B::Index)) {
        (self.0.get_index_unchecked(loc), self.1.get_index_unchecked(loc))
    }

    fn bounds(&self) -> (b: Option<Bounds<(A::Index, B::Index)>>) {
        let ba = self.0.bounds();
        let bb = self.1.bounds();
        match (ba, bb) {
            (Some(ab), Some(bb)) => {
                let bn = Bounds { offset: (ab.offset, bb.offset), extent: (ab.extent, bb.extent) };
                proof {
                    lemma_zip_bounds_ok(self.0.indices(), self.1.indices(), ab, bb, bn);
                }
                Some(bn)
            },
            _ => None,
        }
    }
}

impl<A, B> UniqueIndexList for IndexAZip<A, B> where
    A: IndexList,
    B: UniqueIndexList,
    A::Index: Copy,
    B::Index: Copy,
 {
    proof fn lemma_unique(&self) {
        self.1.lemma_unique();
        let cs = self.indices();
        assert forall|l1: int, l2: int| 0 <= l1 < l2 < cs.len() implies cs[l1] != cs[l2] by {
            if cs[l1] == cs[l2] {
                assert(self.1.indices()[l1] == self.1.indices()[l2]);
            }
        }
    }
}

} // verus!
