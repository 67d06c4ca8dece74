//! The canonical linear access: records held in contiguous storage.

use vstd::prelude::*;
use crate::index_list::index_in_bounds;
use crate::par_access::BoundedParAccess;
use crate::par_access::IntoParAccess;
use crate::par_access::LinearParAccess;
use crate::par_access::ParAccess;
use crate::par_access::SplittableParAccess;
use crate::par_access::lemma_usize_in_bounds;
use crate::record_index::Bounds;

verus! {

/// Exclusive access to a contiguous run of records.
///
/// The access owns its records outright.  A freshly obtained access covers
/// indices `0 .. len`; splitting one (see
/// [`SplittableParAccess::split_access_at`]) yields accesses whose bounds
/// start at a non-zero offset, each owning its own disjoint part of the
/// storage.
#[derive(Debug)]
pub struct SliceParAccessMut<T> {
    data: Vec<T>,
    offset: usize,
}

impl<T> SliceParAccessMut<T> {
    /// The records this access owns, in index order.
    pub closed spec fn records(&self) -> Seq<T> {
        self.data@
    }

    /// The first index this access covers.
    pub closed spec fn start_index(&self) -> usize {
        self.offset
    }

    /// Obtain access to the records of a collection, indexed from zero.
    pub fn from_slice_mut(data: Vec<T>) -> (r: Self)
        ensures
            r.inv(),
            r.records() == data@,
            r.start_index() == 0,
    {
        proof {
            broadcast use vstd::std_specs::vec::axiom_spec_len;

            assert(data.len() == data@.len());
        }
        SliceParAccessMut { data, offset: 0 }
    }

    /// Recover the owned records.
    pub fn into_records(self) -> (r: Vec<T>)
        ensures
            r@ == self.records(),
    {
        self.data
    }

    /// The accessible indices are `start_index() .. start_index() + records().len()`,
    /// and the record at index `i` is `records()[i - start_index()]`.
    pub proof fn lemma_view(&self)
        ensures
            forall|i: usize|
                self.contents().dom().contains(i) <==> self.start_index() <= i < self.start_index()
                    + self.records().len(),
            forall|i: usize|
                self.start_index() <= i < self.start_index() + self.records().len()
                    ==> #[trigger] self.contents()[i] == self.records()[i - self.start_index()],
    {
        assert forall|i: usize|
            self.contents().dom().contains(i) <==> self.start_index() <= i < self.start_index()
                + self.records().len() by {
            if self.start_index() <= i < self.start_index() + self.records().len() {
                assert(self.contents().dom().contains(i));
            }
        }
    }
}

impl<T> ParAccess<usize> for SliceParAccessMut<T> {
    type Record = T;

    closed spec fn inv(&self) -> bool {
        self.offset + self.data@.len() <= usize::MAX
    }

    closed spec fn contents(&self) -> Map<usize, T> {
        Map::new(
            |i: usize| self.offset <= i < self.offset + self.data@.len(),
            |i: usize| self.data@[i - self.offset],
        )
    }

    fn get_unsync_unchecked(&self, index: usize) -> (r: &T) {
        &self.data[index - self.offset]
    }

    fn set_unsync_unchecked(&mut self, index: usize, value: T) {
        let idx = index - self.offset;
        let slot = &mut self.data[idx];
        *slot = value;
        proof {
            assert(self.contents() =~= old(self).contents().insert(index, value));
        }
    }
}

impl<T> BoundedParAccess<usize> for SliceParAccessMut<T> {
    closed spec fn spec_bounds(&self) -> Bounds<usize> {
        Bounds { offset: self.offset, extent: self.data@.len() as usize }
    }

    proof fn lemma_in_bounds_dom(&self, index: usize) {
        lemma_usize_in_bounds(index, self.spec_bounds());
    }

    fn bounds(&self) -> (b: Bounds<usize>) {
        Bounds { offset: self.offset, extent: self.data.len() }
    }

    fn in_bounds(&self, index: usize) -> (r: bool) {
        proof {
            lemma_usize_in_bounds(index, self.spec_bounds());
        }
        self.offset <= index && index - self.offset < self.data.len()
    }
}

impl<T> LinearParAccess for SliceParAccessMut<T> {
    proof fn lemma_dom_exact(&self) {
    }

    fn collection_len(&self) -> (n: usize) {
        self.data.len()
    }
}

impl<T> SplittableParAccess for SliceParAccessMut<T> {
    fn split_access_at(self, mid: usize) -> (r: (Self, Self)) {
        let SliceParAccessMut { mut data, offset } = self;
        let right_data = data.split_off(mid - offset);
        let left = SliceParAccessMut { data, offset };
        let right = SliceParAccessMut { data: right_data, offset: mid };
        proof {
            assert forall|i: usize|
                left.contents().dom().contains(i) implies #[trigger] left.contents()[i]
                == self.contents()[i] by {
                assert(left.records()[i - offset] == self.records()[i - offset]);
            }
            assert forall|i: usize|
                right.contents().dom().contains(i) implies #[trigger] right.contents()[i]
                == self.contents()[i] by {
                assert(right.records()[i - mid] == self.records()[i - offset]);
            }
        }
        (left, right)
    }
}

impl<T> IntoParAccess<usize> for Vec<T> {
    type Access = SliceParAccessMut<T>;

    closed spec fn into_access_spec(self) -> SliceParAccessMut<T> {
        SliceParAccessMut { data: self, offset: 0 }
    }

    fn into_par_access(self) -> (r: SliceParAccessMut<T>) {
        SliceParAccessMut { data: self, offset: 0 }
    }
}

/// The access a vector converts into covers indices `0 .. len` and holds
/// the vector's elements.
pub proof fn lemma_vec_into_access<T>(v: Vec<T>)
    ensures
        v.into_access_spec().inv(),
        v.into_access_spec().records() == v@,
        v.into_access_spec().start_index() == 0,
{
    broadcast use vstd::std_specs::vec::axiom_spec_len;

    assert(v.len() == v@.len());
}

} // verus!
