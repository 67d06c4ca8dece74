//! The splittable producer protocol for work-stealing parallel execution.
//!
//! A producer owns an access together with a half-open location range.
//! Splitting it divides the range *and the ownership of the records*, so
//! the two halves can be handed to different workers: they can never reach
//! the same record.  An outside execution engine drives the splitting and
//! turns each leaf producer into a sequential iterator.

use vstd::prelude::*;
use crate::iter::AccessIterator;
use crate::par_access::BoundedParAccess;
use crate::par_access::IntoParAccess;
use crate::par_access::LinearParAccess;
use crate::par_access::ParAccess;
use crate::par_access::SplittableParAccess;

verus! {

/// A parallel iterator over the records of a linear access.
#[derive(Debug)]
pub struct LinearParAccessIter<Access> {
    access: Access,
}

impl<Access: LinearParAccess> LinearParAccessIter<Access> {
    /// The access driving this iterator.
    pub closed spec fn base(&self) -> Access {
        self.access
    }

    /// Wrap an access for parallel iteration.
    pub fn from_access<IntoAccess>(access: IntoAccess) -> (r: Self) where
        IntoAccess: IntoParAccess<usize, Access = Access>,

        requires
            access.into_access_spec().inv(),
        ensures
            r.base() == access.into_access_spec(),
            r.base().inv(),
    {
        let access = access.into_par_access();
        LinearParAccessIter { access }
    }

    /// The number of records the iterator will produce.
    pub fn len(&self) -> (n: usize)
        requires
            self.base().inv(),
        ensures
            n == self.base().spec_bounds().extent,
    {
        self.access.collection_len()
    }

    /// The producer covering every location of the access, from which an
    /// execution engine recursively splits off work items.
    pub fn into_producer(self) -> (r: AccessProducer<Access>)
        requires
            self.base().inv(),
        ensures
            r.wf(),
            r.base() == self.base(),
            r.start_loc() == self.base().spec_bounds().offset,
            r.end_loc() == self.base().spec_bounds().offset + self.base().spec_bounds().extent,
    {
        proof {
            self.access.lemma_dom_exact();
        }
        let b = self.access.bounds();
        let end = b.offset + b.extent;
        AccessProducer { access: self.access, start_idx: b.offset, end_idx: end }
    }
}

/// Creates a splittable parallel iterator for the provided linear access.
pub fn create_par_iter<IntoAccess>(access: IntoAccess) -> (r: LinearParAccessIter<
    IntoAccess::Access,
>) where IntoAccess: IntoParAccess<usize>, IntoAccess::Access: LinearParAccess
    requires
        access.into_access_spec().inv(),
    ensures
        r.base() == access.into_access_spec(),
        r.base().inv(),
{
    LinearParAccessIter::from_access(access)
}

/// A splittable work item: an access together with the half-open location
/// range `start_loc() .. end_loc()` it is responsible for.
#[derive(Debug)]
pub struct AccessProducer<Access> {
    access: Access,
    start_idx: usize,
    end_idx: usize,
}

impl<Access: LinearParAccess> AccessProducer<Access> {
    /// The access this producer owns.
    pub closed spec fn base(&self) -> Access {
        self.access
    }

    /// The first location of the producer's range.
    pub closed spec fn start_loc(&self) -> usize {
        self.start_idx
    }

    /// One past the last location of the producer's range.
    pub closed spec fn end_loc(&self) -> usize {
        self.end_idx
    }

    /// The producer's range is exactly what its access covers.
    pub closed spec fn wf(&self) -> bool {
        &&& self.access.inv()
        &&& self.access.spec_bounds().offset == self.start_idx
        &&& self.access.spec_bounds().offset + self.access.spec_bounds().extent == self.end_idx
        &&& self.start_idx <= self.end_idx
    }

    /// The locations of the producer's range, in iteration order.
    pub open spec fn locations(&self) -> Seq<usize> {
        Seq::new((self.end_loc() - self.start_loc()) as nat, |k: int| (self.start_loc() + k) as usize)
    }

    /// The records of the producer's range, in iteration order.
    pub open spec fn records(&self) -> Seq<Access::Record> {
        Seq::new(
            (self.end_loc() - self.start_loc()) as nat,
            |k: int| self.base().contents()[(self.start_loc() + k) as usize],
        )
    }

    /// The number of records in this producer's range.
    pub fn len(&self) -> (n: usize)
        requires
            self.wf(),
        ensures
            n == self.end_loc() - self.start_loc(),
    {
        self.end_idx - self.start_idx
    }

    /// Turn the producer into a sequential iterator over its range.
    pub fn into_iter(self) -> (r: AccessIterator<Access>)
        requires
            self.wf(),
        ensures
            r.wf(),
            r.base() == self.base(),
            r.next_loc() == self.start_loc(),
            r.end_loc() == self.end_loc(),
    {
        AccessIterator::new_for_range(self.access, self.start_idx..self.end_idx)
    }
}

impl<Access: SplittableParAccess> AccessProducer<Access> {
    /// Split the producer at `index` (relative to its range) into the two
    /// work items over `start_loc() .. start_loc() + index` and
    /// `start_loc() + index .. end_loc()`.
    ///
    /// The halves' location ranges are disjoint and their union is the
    /// original range: the locations and the records of the two halves,
    /// concatenated, are exactly those of the original.  Splitting
    /// recursively down to singletons and concatenating the results
    /// therefore reproduces sequential iteration order.
    pub fn split_at(self, index: usize) -> (r: (Self, Self))
        requires
            self.wf(),
            index <= self.end_loc() - self.start_loc(),
        ensures
            r.0.wf(),
            r.1.wf(),
            r.0.start_loc() == self.start_loc(),
            r.0.end_loc() == self.start_loc() + index,
            r.1.start_loc() == self.start_loc() + index,
            r.1.end_loc() == self.end_loc(),
            r.0.locations() + r.1.locations() == self.locations(),
            r.0.records() + r.1.records() == self.records(),
    {
        let mid = self.start_idx + index;
        proof {
            self.access.lemma_dom_exact();
        }
        let (left_access, right_access) = self.access.split_access_at(mid);
        let left = AccessProducer { access: left_access, start_idx: self.start_idx, end_idx: mid };
        let right = AccessProducer { access: right_access, start_idx: mid, end_idx: self.end_idx };
        proof {
            left.access.lemma_dom_exact();
            right.access.lemma_dom_exact();
            assert forall|k: int| 0 <= k < left.records().len() implies #[trigger] left.records()[k]
                == self.records()[k] by {
                assert(left.base().contents().dom().contains((left.start_loc() + k) as usize));
            }
            assert forall|k: int|
                0 <= k < right.records().len() implies #[trigger] right.records()[k]
                == self.records()[k + index] by {
                assert(right.base().contents().dom().contains((right.start_loc() + k) as usize));
            }
            assert(left.locations() + right.locations() =~= self.locations());
            assert(left.records() + right.records() =~= self.records());
        }
        (left, right)
    }
}

} // verus!
