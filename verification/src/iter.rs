//! Sequential iteration over a linear access.

use vstd::prelude::*;
use crate::par_access::BoundedParAccess;
use crate::par_access::IntoParAccess;
use crate::par_access::LinearParAccess;
use crate::par_access::ParAccess;

verus! {

/// A sequential cursor over the records of a linear access.
///
/// The cursor walks the half-open location range `next_loc() .. end_loc()`
/// of the access it owns, forwards via [`AccessIterator::next`] or
/// backwards via [`AccessIterator::next_back`].
#[derive(Debug)]
pub struct AccessIterator<Access> {
    access: Access,
    next_idx: usize,
    end_idx: usize,
}

impl<Access: LinearParAccess> AccessIterator<Access> {
    /// The access driving this iterator.
    pub closed spec fn base(&self) -> Access {
        self.access
    }

    /// The next location the cursor will yield.
    pub closed spec fn next_loc(&self) -> usize {
        self.next_idx
    }

    /// One past the last location the cursor will yield.
    pub closed spec fn end_loc(&self) -> usize {
        self.end_idx
    }

    /// The cursor's range lies inside the access's bounds.
    pub closed spec fn wf(&self) -> bool {
        &&& self.access.inv()
        &&& self.access.spec_bounds().offset <= self.next_idx
        &&& self.next_idx <= self.end_idx
        &&& self.end_idx <= self.access.spec_bounds().offset + self.access.spec_bounds().extent
    }

    /// Construct an iterator for the records at the locations of `range`,
    /// which must lie inside the access's bounds.
    pub fn new_for_range(access: Access, range: core::ops::Range<usize>) -> (r: Self)
        requires
            access.inv(),
            access.spec_bounds().offset <= range.start,
            range.start <= range.end,
            range.end <= access.spec_bounds().offset + access.spec_bounds().extent,
        ensures
            r.wf(),
            r.base() == access,
            r.next_loc() == range.start,
            r.end_loc() == range.end,
    {
        AccessIterator { access, next_idx: range.start, end_idx: range.end }
    }

    /// The number of records not yet yielded.
    pub fn len(&self) -> (n: usize)
        requires
            self.wf(),
        ensures
            n == self.end_loc() - self.next_loc(),
    {
        self.end_idx - self.next_idx
    }
}

impl<Access: LinearParAccess> AccessIterator<Access> where Access::Record: Copy {
    /// Yield the record at the cursor's front, advancing it.
    pub fn next(&mut self) -> (r: Option<Access::Record>)
        requires
            old(self).wf(),
        ensures
            final(self).wf(),
            final(self).base() == old(self).base(),
            final(self).end_loc() == old(self).end_loc(),
            if old(self).next_loc() < old(self).end_loc() {
                &&& final(self).next_loc() == old(self).next_loc() + 1
                &&& r == Some(old(self).base().contents()[old(self).next_loc()])
            } else {
                &&& final(self).next_loc() == old(self).next_loc()
                &&& r is None
            },
    {
        if self.next_idx < self.end_idx {
            proof {
                self.access.lemma_dom_exact();
            }
            let item = *self.access.get_unsync_unchecked(self.next_idx);
            self.next_idx += 1;
            Some(item)
        } else {
            None
        }
    }

    /// Yield the record at the cursor's back, retreating it.
    pub fn next_back(&mut self) -> (r: Option<Access::Record>)
        requires
            old(self).wf(),
        ensures
            final(self).wf(),
            final(self).base() == old(self).base(),
            final(self).next_loc() == old(self).next_loc(),
            if old(self).next_loc() < old(self).end_loc() {
                &&& final(self).end_loc() == old(self).end_loc() - 1
                &&& r == Some(old(self).base().contents()[(old(self).end_loc() - 1) as usize])
            } else {
                &&& final(self).end_loc() == old(self).end_loc()
                &&& r is None
            },
    {
        if self.next_idx < self.end_idx {
            self.end_idx -= 1;
            proof {
                self.access.lemma_dom_exact();
            }
            Some(*self.access.get_unsync_unchecked(self.end_idx))
        } else {
            None
        }
    }
}

/// Constructs a sequential iterator over every record of the provided
/// access object.
pub fn create_iter<IntoAccess>(access: IntoAccess) -> (r: AccessIterator<
    IntoAccess::Access,
>) where IntoAccess: IntoParAccess<usize>, IntoAccess::Access: LinearParAccess
    requires
        access.into_access_spec().inv(),
    ensures
        r.wf(),
        r.base() == access.into_access_spec(),
        r.next_loc() == access.into_access_spec().spec_bounds().offset,
        r.end_loc() == access.into_access_spec().spec_bounds().offset
            + access.into_access_spec().spec_bounds().extent,
{
    let access = access.into_par_access();
    proof {
        access.lemma_dom_exact();
    }
    let b = access.bounds();
    let end = b.offset + b.extent;
    AccessIterator::new_for_range(access, b.offset..end)
}

} // verus!
