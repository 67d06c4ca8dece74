//! The index-list abstraction: finite sequences of indices addressed by
//! *location*, with reported bounds and a uniqueness refinement.

use vstd::prelude::*;
use crate::combinators::IndexFlatten;
use crate::combinators::IndexTranspose;
use crate::combinators::index_flatten::Flatten;
use crate::combinators::index_transpose::Transpose;
use crate::record_index::Bounds;
use crate::record_index::RecordIndex;
use crate::record_index::coords_in_bounds;

verus! {

/// No two locations of the sequence hold equal indices.
pub open spec fn distinct_indices<I>(s: Seq<I>) -> bool {
    forall|l1: int, l2: int| 0 <= l1 < l2 < s.len() ==> s[l1] != s[l2]
}

/// The index lies inside the bounds, axis by axis.
pub open spec fn index_in_bounds<I: RecordIndex>(i: I, b: Bounds<I>) -> bool {
    coords_in_bounds(i.coords(), b.offset.coords(), b.extent.coords())
}

/// Every index of the sequence lies inside the bounds.
pub open spec fn list_in_bounds<I: RecordIndex>(s: Seq<I>, b: Bounds<I>) -> bool {
    forall|l: int| 0 <= l < s.len() ==> index_in_bounds(#[trigger] s[l], b)
}

/// On axis `d`, both the lowest and the highest coordinate covered by the
/// bounds are attained by some index of the sequence.
pub open spec fn bounds_tight_on_axis<I: RecordIndex>(s: Seq<I>, b: Bounds<I>, d: int) -> bool {
    &&& exists|l: int| 0 <= l < s.len() && (#[trigger] s[l]).coords()[d] == b.offset.coords()[d]
    &&& exists|l: int|
        0 <= l < s.len() && (#[trigger] s[l]).coords()[d] == b.offset.coords()[d]
            + b.extent.coords()[d] - 1
}

/// The bounds reported for a sequence of indices are correct and tight:
/// they contain every index, and — unless the sequence is empty — every
/// axis attains both extremes.
pub open spec fn list_bounds_ok<I: RecordIndex>(s: Seq<I>, b: Bounds<I>) -> bool {
    &&& list_in_bounds(s, b)
    &&& s.len() > 0 ==> forall|d: int| 0 <= d < I::rank() ==> #[trigger] bounds_tight_on_axis(s, b, d)
}

/// A finite list of indices.
///
/// The list is abstract: ranges, vectors and the combinators of this crate
/// all implement it.  To avoid confusing terminology, the term *location*
/// describes a position into a list of indices, while *index* describes a
/// position in the collection the indices point into.
pub trait IndexList: Sized {
    /// The index type contained in this index list.
    type Index: RecordIndex;

    /// Structural well-formedness of the list value: what its constructors
    /// establish (for example, that a derived list's length arithmetic does
    /// not overflow `usize`).
    spec fn wf(&self) -> bool;

    /// The mathematical model: the sequence of indices, by location.
    spec fn indices(&self) -> Seq<Self::Index>;

    /// Whether lists of this type always report bounds.
    spec fn always_bounded() -> bool;

    /// The bounds this list reports: the value [`IndexList::bounds`]
    /// returns.
    spec fn spec_bounds(&self) -> Option<Bounds<Self::Index>>;

    /// The number of indices in this index list.
    fn num_indices(&self) -> (n: usize)
        requires
            self.wf(),
        ensures
            n == self.indices().len(),
    ;

    /// Obtain the index at the given location, which the caller must prove
    /// in bounds of the list.
    fn get_index_unchecked(&self, loc: usize) -> (i: Self::Index)
        requires
            self.wf(),
            loc < self.indices().len(),
        ensures
            i == self.indices()[loc as int],
    ;

    /// Returns the index at the given location.
    fn get_index(&self, loc: usize) -> (i: Self::Index)
        requires
            self.wf(),
            loc < self.indices().len(),
        ensures
            i == self.indices()[loc as int],
    {
        self.get_index_unchecked(loc)
    }

    /// Return tight bounds containing all indices in this index list, if
    /// the list can report bounds.
    fn bounds(&self) -> (b: Option<Bounds<Self::Index>>)
        requires
            self.wf(),
        ensures
            b == self.spec_bounds(),
            match b {
                Some(bn) => list_bounds_ok(self.indices(), bn),
                None => !Self::always_bounded(),
            },
    ;

    /// Flattens nested tuple indices.
    fn index_flatten(self) -> (r: IndexFlatten<Self>) where Self::Index: Flatten
        ensures
            r.0 == self,
    {
        IndexFlatten(self)
    }

    /// Transposes the indices in this index list.
    fn index_transpose(self) -> (r: IndexTranspose<Self>) where Self::Index: Transpose
        ensures
            r.0 == self,
    {
        IndexTranspose(self)
    }
}

/// A finite list of *unique* indices: no two locations map to equal
/// indices.  Uniqueness is a proof obligation discharged by every
/// implementation, either structurally (ranges, combinators) or by a
/// runtime check performed at construction.
pub trait UniqueIndexList: IndexList {
    /// All indices in the list are distinct.
    proof fn lemma_unique(&self)
        requires
            self.wf(),
        ensures
            distinct_indices(self.indices()),
    ;
}

impl IndexList for core::ops::Range<usize> {
    type Index = usize;

    open spec fn wf(&self) -> bool {
        true
    }

    open spec fn indices(&self) -> Seq<usize> {
        Seq::new(
            if self.start <= self.end {
                (self.end - self.start) as nat
            } else {
                0
            },
            |l: int| (self.start + l) as usize,
        )
    }

    open spec fn always_bounded() -> bool {
        true
    }

    open spec fn spec_bounds(&self) -> Option<Bounds<usize>> {
        Some(Bounds { offset: self.start, extent: self.indices().len() as usize })
    }

    fn num_indices(&self) -> (n: usize) {
        if self.start <= self.end {
            self.end - self.start
        } else {
            0
        }
    }

    fn get_index_unchecked(&self, loc: usize) -> (i: usize) {
        self.start + loc
    }

    fn bounds(&self) -> (b: Option<Bounds<usize>>) {
        let n = self.num_indices();
        let bn = Bounds { offset: self.start, extent: n };
        proof {
            let s = self.indices();
            if s.len() > 0 {
                assert forall|d: int| 0 <= d < <usize as RecordIndex>::rank() implies #[trigger] bounds_tight_on_axis(
                    s,
                    bn,
                    d,
                ) by {
                    assert(s[0].coords()[0] == bn.offset.coords()[0]);
                    assert(s[s.len() - 1].coords()[0] == bn.offset.coords()[0]
                        + bn.extent.coords()[0] - 1);
                }
            }
        }
        Some(bn)
    }
}

impl UniqueIndexList for core::ops::Range<usize> {
    proof fn lemma_unique(&self) {
    }
}

/// Relies on `RangeInclusive::start`: it returns the lower bound the range
/// was constructed with.
pub assume_specification<Idx>[ core::ops::RangeInclusive::<Idx>::start ](
    r: &core::ops::RangeInclusive<Idx>,
) -> (ret: &Idx)
    ensures
        *ret == r@.start,
;

/// Relies on `RangeInclusive::end`: it returns the upper bound the range
/// was constructed with.
pub assume_specification<Idx>[ core::ops::RangeInclusive::<Idx>::end ](
    r: &core::ops::RangeInclusive<Idx>,
) -> (ret: &Idx)
    ensures
        *ret == r@.end,
;

impl IndexList for core::ops::RangeInclusive<usize> {
    type Index = usize;

    open spec fn wf(&self) -> bool {
        &&& !self@.exhausted
        &&& self@.start <= self@.end ==> self@.end - self@.start < usize::MAX
    }

    open spec fn indices(&self) -> Seq<usize> {
        Seq::new(
            if self@.start <= self@.end {
                (self@.end - self@.start + 1) as nat
            } else {
                0
            },
            |l: int| (self@.start + l) as usize,
        )
    }

    open spec fn always_bounded() -> bool {
        true
    }

    open spec fn spec_bounds(&self) -> Option<Bounds<usize>> {
        Some(Bounds { offset: self@.start, extent: self.indices().len() as usize })
    }

    fn num_indices(&self) -> (n: usize) {
        let s = *self.start();
        let e = *self.end();
        if s <= e {
            e - s + 1
        } else {
            0
        }
    }

    fn get_index_unchecked(&self, loc: usize) -> (i: usize) {
        *self.start() + loc
    }

    fn bounds(&self) -> (b: Option<Bounds<usize>>) {
        let n = self.num_indices();
        let bn = Bounds { offset: *self.start(), extent: n };
        proof {
            let s = self.indices();
            if s.len() > 0 {
                assert forall|d: int| 0 <= d < <usize as RecordIndex>::rank() implies #[trigger] bounds_tight_on_axis(
                    s,
                    bn,
                    d,
                ) by {
                    assert(s[0].coords()[0] == bn.offset.coords()[0]);
                    assert(s[s.len() - 1].coords()[0] == bn.offset.coords()[0]
                        + bn.extent.coords()[0] - 1);
                }
            }
        }
        Some(bn)
    }
}

impl UniqueIndexList for core::ops::RangeInclusive<usize> {
    proof fn lemma_unique(&self) {
    }
}

impl<I: RecordIndex + Copy> IndexList for Vec<I> {
    type Index = I;

    open spec fn wf(&self) -> bool {
        true
    }

    open spec fn indices(&self) -> Seq<I> {
        self@
    }

    open spec fn always_bounded() -> bool {
        false
    }

    open spec fn spec_bounds(&self) -> Option<Bounds<I>> {
        None
    }

    fn num_indices(&self) -> (n: usize) {
        self.len()
    }

    fn get_index_unchecked(&self, loc: usize) -> (i: I) {
        self[loc]
    }

    fn bounds(&self) -> (b: Option<Bounds<I>>) {
        None
    }
}

} // verus!
