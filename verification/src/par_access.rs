//! The record-access abstraction: capabilities over collections of records
//! addressed by index.
//!
//! An access owns the records it can reach, so two accesses can never touch
//! the same record: where the parallel splitting protocol needs two live
//! accesses, [`SplittableParAccess::split_access_at`] transfers ownership
//! of two disjoint parts, the only way to duplicate an access.

use vstd::prelude::*;
use crate::index_list::index_in_bounds;
use crate::record_index::Bounds;
use crate::record_index::RecordIndex;
use crate::record_index::coords_in_bounds;

verus! {

/// Membership of a scalar index in one-dimensional bounds is the interval
/// check.
pub proof fn lemma_usize_in_bounds(i: usize, b: Bounds<usize>)
    ensures
        index_in_bounds(i, b) <==> (b.offset <= i < b.offset + b.extent),
{
    if coords_in_bounds(i.coords(), b.offset.coords(), b.extent.coords()) {
        assert(i.coords()[0] >= b.offset.coords()[0]);
        assert(i.coords()[0] < b.offset.coords()[0] + b.extent.coords()[0]);
    }
}

/// Access to records of a collection, addressed by index.
///
/// The access owns its records; looking one up shares it, and replacing one
/// takes the access exclusively.  The model is [`ParAccess::contents`]: a
/// map from each accessible index to the record stored there.
pub trait ParAccess<Index: RecordIndex>: Sized {
    /// A record (element) in the underlying collection.
    type Record;

    /// The internal invariant of this access, established by its
    /// constructors.
    spec fn inv(&self) -> bool;

    /// The record stored at each accessible index.
    spec fn contents(&self) -> Map<Index, Self::Record>;

    /// Look up the record at an index the caller has proven accessible.
    fn get_unsync_unchecked(&self, index: Index) -> (r: &Self::Record)
        requires
            self.inv(),
            self.contents().dom().contains(index),
        ensures
            *r == self.contents()[index],
    ;

    /// Replace the record at an index the caller has proven accessible.
    fn set_unsync_unchecked(&mut self, index: Index, value: Self::Record)
        requires
            old(self).inv(),
            old(self).contents().dom().contains(index),
        ensures
            final(self).inv(),
            final(self).contents() == old(self).contents().insert(index, value),
    ;
}

/// Access to a bounded collection: the accessible indices are described by
/// rectangular [`Bounds`], which never change over the access's lifetime.
pub trait BoundedParAccess<Index: RecordIndex>: ParAccess<Index> {
    /// The bounds of this collection.
    spec fn spec_bounds(&self) -> Bounds<Index>;

    /// Every index inside the bounds is accessible.
    proof fn lemma_in_bounds_dom(&self, index: Index)
        requires
            self.inv(),
        ensures
            index_in_bounds(index, self.spec_bounds()) ==> self.contents().dom().contains(index),
    ;

    /// The bounds of this data structure.
    fn bounds(&self) -> (b: Bounds<Index>)
        requires
            self.inv(),
        ensures
            b == self.spec_bounds(),
    ;

    /// Determine if the provided index is in bounds.
    ///
    /// Implementors may override this with a cheaper equivalent check.
    fn in_bounds(&self, index: Index) -> (r: bool)
        requires
            self.inv(),
        ensures
            r == index_in_bounds(index, self.spec_bounds()),
    {
        self.bounds().contains_index(index)
    }

    /// Look up the record at an in-bounds index.
    fn get_unsync(&self, index: Index) -> (r: &Self::Record)
        requires
            self.inv(),
            index_in_bounds(index, self.spec_bounds()),
        ensures
            self.contents().dom().contains(index),
            *r == self.contents()[index],
    {
        proof {
            self.lemma_in_bounds_dom(index);
        }
        self.get_unsync_unchecked(index)
    }

    /// Replace the record at an in-bounds index.
    fn set_unsync(&mut self, index: Index, value: Self::Record)
        requires
            old(self).inv(),
            index_in_bounds(index, old(self).spec_bounds()),
        ensures
            final(self).inv(),
            old(self).contents().dom().contains(index),
            final(self).contents() == old(self).contents().insert(index, value),
    {
        proof {
            self.lemma_in_bounds_dom(index);
        }
        self.set_unsync_unchecked(index, value)
    }
}

/// A type that can be converted into a parallel access object.
pub trait IntoParAccess<Index: RecordIndex>: Sized {
    /// The access type obtained through this trait.
    type Access: BoundedParAccess<Index>;

    /// The access this value converts into.
    spec fn into_access_spec(self) -> Self::Access;

    /// Obtain parallel access to this collection.
    fn into_par_access(self) -> (r: Self::Access)
        ensures
            r == self.into_access_spec(),
    ;
}

impl<Index: RecordIndex, Access: BoundedParAccess<Index>> IntoParAccess<Index> for Access {
    type Access = Self;

    open spec fn into_access_spec(self) -> Self::Access {
        self
    }

    fn into_par_access(self) -> (r: Self::Access) {
        self
    }
}

/// An access to an array-like structure, indexed by `usize`, whose
/// accessible indices are exactly the locations its bounds cover.
pub trait LinearParAccess: BoundedParAccess<usize> {
    /// The accessible indices are exactly the interval the bounds describe.
    proof fn lemma_dom_exact(&self)
        requires
            self.inv(),
        ensures
            self.spec_bounds().offset + self.spec_bounds().extent <= usize::MAX,
            forall|i: usize|
                self.contents().dom().contains(i) <==> self.spec_bounds().offset <= i
                    < self.spec_bounds().offset + self.spec_bounds().extent,
    ;

    /// The number of accessible records in the collection.
    fn collection_len(&self) -> (n: usize)
        requires
            self.inv(),
        ensures
            n == self.spec_bounds().extent,
    {
        self.bounds().extent
    }
}

/// A linear access whose ownership can be split at a midpoint, yielding two
/// accesses over disjoint halves of the collection.
///
/// This is the only way to obtain two simultaneously live accesses to one
/// collection, and the reason no access offers an unrestricted duplication
/// operation: the two halves can never reach the same record.
pub trait SplittableParAccess: LinearParAccess {
    /// Split this access at `mid` (an absolute index) into the part before
    /// `mid` and the part from `mid` on.
    fn split_access_at(self, mid: usize) -> (r: (Self, Self))
        requires
            self.inv(),
            self.spec_bounds().offset <= mid <= self.spec_bounds().offset
                + self.spec_bounds().extent,
        ensures
            r.0.inv(),
            r.1.inv(),
            r.0.spec_bounds() == (Bounds {
                offset: self.spec_bounds().offset,
                extent: (mid - self.spec_bounds().offset) as usize,
            }),
            r.1.spec_bounds() == (Bounds {
                offset: mid,
                extent: (self.spec_bounds().offset + self.spec_bounds().extent - mid) as usize,
            }),
            forall|i: usize|
                r.0.contents().dom().contains(i) ==> #[trigger] r.0.contents()[i]
                    == self.contents()[i],
            forall|i: usize|
                r.1.contents().dom().contains(i) ==> #[trigger] r.1.contents()[i]
                    == self.contents()[i],
    ;
}

} // verus!
