//! Narrowing: combining an access with a unique index list to obtain a new
//! access restricted to, and addressed by location over, that index set.

use vstd::prelude::*;
use crate::error::OutOfBounds;
use crate::index_list::IndexList;
use crate::index_list::UniqueIndexList;
use crate::index_list::index_in_bounds;
use crate::par_access::BoundedParAccess;
use crate::par_access::IntoParAccess;
use crate::par_access::LinearParAccess;
use crate::par_access::ParAccess;
use crate::par_access::lemma_usize_in_bounds;
use crate::record_index::Bounds;
use crate::record_index::RecordIndex;
use crate::record_index::coords_contain_bounds;

verus! {

/// An access object that has been narrowed to a subset of its indices.
///
/// The narrowed access behaves as a linear access over *locations*
/// `0 .. num_indices`, translating each location to an index before
/// delegating to the underlying access.  Because the index list is unique,
/// distinct locations reach distinct records, so replacing the record at
/// one location leaves every other location's record unchanged — the fact
/// that makes handing disjoint location ranges to concurrent workers sound.
///
/// Containment is established once, at construction: by a single bounds
/// comparison when the index list reports bounds, and by a scan of the
/// indices when it cannot.  Either way, lookups afterwards need no
/// per-record check.
pub struct NarrowedAccess<'a, Indices, Access> {
    indices: &'a Indices,
    access: Access,
    verified_in_bounds: bool,
}

impl<'a, Indices, Access> NarrowedAccess<'a, Indices, Access> where
    Indices: UniqueIndexList,
    Access: BoundedParAccess<Indices::Index>,
    Indices::Index: Copy,
 {
    /// The index list this access was narrowed to.
    pub closed spec fn index_list(&self) -> Indices {
        *self.indices
    }

    /// The underlying access.
    pub closed spec fn base(&self) -> Access {
        self.access
    }

    /// Whether containment was established by comparing bounds, rather
    /// than by scanning the indices one by one.
    pub closed spec fn is_verified_in_bounds(&self) -> bool {
        self.verified_in_bounds
    }

    /// Recover the underlying access once the narrowed view is done with.
    pub fn into_base(self) -> (r: Access)
        ensures
            r == self.base(),
    {
        self.access
    }

    /// Narrow `access` to `indices`.
    ///
    /// Returns [`OutOfBounds`] if and only if some index of the list lies
    /// outside the access's bounds.  On success, the narrowed access's
    /// length equals the number of indices, and the record at location
    /// `loc` is the underlying record at the `loc`-th index.
    pub fn try_new(indices: &'a Indices, access: Access) -> (r: Result<Self, OutOfBounds>)
        requires
            indices.wf(),
            access.inv(),
        ensures
            match r {
                Ok(a) => {
                    &&& a.inv()
                    &&& a.index_list() == *indices
                    &&& a.base() == access
                    &&& a.spec_bounds() == (Bounds {
                        offset: 0usize,
                        extent: indices.indices().len() as usize,
                    })
                    &&& forall|l: int|
                        0 <= l < indices.indices().len() ==> index_in_bounds(
                            #[trigger] indices.indices()[l],
                            access.spec_bounds(),
                        )
                    &&& forall|loc: usize|
                        loc < indices.indices().len() ==> #[trigger] a.contents()[loc]
                            == access.contents()[indices.indices()[loc as int]]
                },
                Err(_) => exists|l: int|
                    0 <= l < indices.indices().len() && !index_in_bounds(
                        #[trigger] indices.indices()[l],
                        access.spec_bounds(),
                    ),
            },
    {
        let ghost s = indices.indices();
        let n = indices.num_indices();
        if n == 0 {
            let a = NarrowedAccess { indices, access, verified_in_bounds: true };
            return Ok(a);
        }
        let index_bounds = indices.bounds();
        match index_bounds {
            Some(index_bounds) => {
                if access.bounds().contains_bounds(&index_bounds) {
                    proof {
                        assert forall|l: int| 0 <= l < s.len() implies index_in_bounds(
                            #[trigger] s[l],
                            access.spec_bounds(),
                        ) by {
                            s[l].lemma_rank();
                            access.spec_bounds().offset.lemma_rank();
                            crate::record_index::lemma_contains_bounds_sound(
                                access.spec_bounds().offset.coords(),
                                access.spec_bounds().extent.coords(),
                                index_bounds.offset.coords(),
                                index_bounds.extent.coords(),
                                s[l].coords(),
                            );
                        }
                        assert forall|l: int|
                            0 <= l < s.len() implies access.contents().dom().contains(
                            #[trigger] s[l],
                        ) by {
                            access.lemma_in_bounds_dom(s[l]);
                        }
                    }
                    Ok(NarrowedAccess { indices, access, verified_in_bounds: true })
                } else {
                    proof {
                        let ao = access.spec_bounds().offset.coords();
                        let ae = access.spec_bounds().extent.coords();
                        let io = index_bounds.offset.coords();
                        let ie = index_bounds.extent.coords();
                        access.spec_bounds().offset.lemma_rank();
                        access.spec_bounds().extent.lemma_rank();
                        index_bounds.offset.lemma_rank();
                        index_bounds.extent.lemma_rank();
                        assert(exists|d: int|
                            0 <= d < ao.len() && !(ao[d] <= #[trigger] io[d] && io[d] + ie[d]
                                <= ao[d] + ae[d])) by {
                            if forall|d: int|
                                0 <= d < ao.len() ==> (ao[d] <= #[trigger] io[d] && io[d] + ie[d]
                                    <= ao[d] + ae[d]) {
                                assert(coords_contain_bounds(ao, ae, io, ie));
                            }
                        }
                        let d = choose|d: int|
                            0 <= d < ao.len() && !(ao[d] <= #[trigger] io[d] && io[d] + ie[d]
                                <= ao[d] + ae[d]);
                        assert(crate::index_list::bounds_tight_on_axis(s, index_bounds, d));
                        if ao[d] > io[d] {
                            let l = choose|l: int|
                                0 <= l < s.len() && (#[trigger] s[l]).coords()[d] == io[d];
                            s[l].lemma_rank();
                            assert(!index_in_bounds(s[l], access.spec_bounds()));
                        } else {
                            let l = choose|l: int|
                                0 <= l < s.len() && (#[trigger] s[l]).coords()[d] == io[d] + ie[d]
                                    - 1;
                            s[l].lemma_rank();
                            assert(!index_in_bounds(s[l], access.spec_bounds()));
                        }
                    }
                    Err(OutOfBounds)
                }
            },
            None => {
                // The list cannot report bounds, so containment is checked
                // one index at a time.
                let mut loc: usize = 0;
                while loc < n
                    invariant
                        indices.wf(),
                        access.inv(),
                        s == indices.indices(),
                        n == s.len(),
                        loc <= n,
                        forall|l: int|
                            0 <= l < loc ==> index_in_bounds(
                                #[trigger] s[l],
                                access.spec_bounds(),
                            ),
                    decreases n - loc,
                {
                    let idx = indices.get_index_unchecked(loc);
                    if !access.in_bounds(idx) {
                        proof {
                            assert(!index_in_bounds(s[loc as int], access.spec_bounds()));
                        }
                        return Err(OutOfBounds);
                    }
                    loc += 1;
                }
                proof {
                    assert forall|l: int|
                        0 <= l < s.len() implies access.contents().dom().contains(
                        #[trigger] s[l],
                    ) by {
                        access.lemma_in_bounds_dom(s[l]);
                    }
                }
                Ok(NarrowedAccess { indices, access, verified_in_bounds: false })
            },
        }
    }
}

impl<'a, Indices, Access> ParAccess<usize> for NarrowedAccess<'a, Indices, Access> where
    Indices: UniqueIndexList,
    Access: BoundedParAccess<Indices::Index>,
    Indices::Index: Copy,
 {
    type Record = Access::Record;

    closed spec fn inv(&self) -> bool {
        &&& self.indices.wf()
        &&& self.access.inv()
        &&& self.indices.indices().len() <= usize::MAX
        &&& forall|l: int|
            0 <= l < self.indices.indices().len() ==> self.access.contents().dom().contains(
                #[trigger] self.indices.indices()[l],
            )
    }

    closed spec fn contents(&self) -> Map<usize, Access::Record> {
        Map::new(
            |loc: usize|
                loc < self.indices.indices().len() && self.access.contents().dom().contains(
                    self.indices.indices()[loc as int],
                ),
            |loc: usize| self.access.contents()[self.indices.indices()[loc as int]],
        )
    }

    fn get_unsync_unchecked(&self, loc: usize) -> (r: &Access::Record) {
        let index = self.indices.get_index_unchecked(loc);
        self.access.get_unsync_unchecked(index)
    }

    fn set_unsync_unchecked(&mut self, loc: usize, value: Access::Record) {
        let ghost s = self.indices.indices();
        let index = self.indices.get_index_unchecked(loc);
        self.access.set_unsync_unchecked(index, value);
        proof {
            self.indices.lemma_unique();
            assert(self.access.contents().dom() =~= old(self).access.contents().dom());
            assert forall|l: usize|
                self.contents().dom().contains(l) implies #[trigger] self.contents()[l] == old(
                self,
            ).contents().insert(loc, value)[l] by {
                if l != loc {
                    assert(s[l as int] != s[loc as int]);
                }
            }
            assert(self.contents() =~= old(self).contents().insert(loc, value));
        }
    }
}

impl<'a, Indices, Access> BoundedParAccess<usize> for NarrowedAccess<'a, Indices, Access> where
    Indices: UniqueIndexList,
    Access: BoundedParAccess<Indices::Index>,
    Indices::Index: Copy,
 {
    closed spec fn spec_bounds(&self) -> Bounds<usize> {
        Bounds { offset: 0usize, extent: self.indices.indices().len() as usize }
    }

    proof fn lemma_in_bounds_dom(&self, index: usize) {
        lemma_usize_in_bounds(index, self.spec_bounds());
    }

    fn bounds(&self) -> (b: Bounds<usize>) {
        Bounds { offset: 0, extent: self.indices.num_indices() }
    }
}

impl<'a, Indices, Access> LinearParAccess for NarrowedAccess<'a, Indices, Access> where
    Indices: UniqueIndexList,
    Access: BoundedParAccess<Indices::Index>,
    Indices::Index: Copy,
 {
    proof fn lemma_dom_exact(&self) {
    }

    fn collection_len(&self) -> (n: usize) {
        self.indices.num_indices()
    }
}

/// Narrows an access object to a subset of its index set.
///
/// The indices must be unique, which is ensured through the
/// [`UniqueIndexList`] trait.  Returns [`OutOfBounds`] if and only if some
/// index of the list lies outside the bounds of the collection.
pub fn narrow_access_to_indices<'a, IntoAccess, Indices>(
    access: IntoAccess,
    indices: &'a Indices,
) -> (r: Result<NarrowedAccess<'a, Indices, IntoAccess::Access>, OutOfBounds>) where
    Indices: UniqueIndexList,
    Indices::Index: Copy,
    IntoAccess: IntoParAccess<Indices::Index>,

    requires
        indices.wf(),
        access.into_access_spec().inv(),
    ensures
        match r {
            Ok(a) => {
                &&& a.inv()
                &&& a.index_list() == *indices
                &&& a.base() == access.into_access_spec()
                &&& a.spec_bounds() == (Bounds {
                    offset: 0usize,
                    extent: indices.indices().len() as usize,
                })
                &&& forall|l: int|
                    0 <= l < indices.indices().len() ==> index_in_bounds(
                        #[trigger] indices.indices()[l],
                        access.into_access_spec().spec_bounds(),
                    )
                &&& forall|loc: usize|
                    loc < indices.indices().len() ==> #[trigger] a.contents()[loc]
                        == access.into_access_spec().contents()[indices.indices()[loc as int]]
            },
            Err(_) => exists|l: int|
                0 <= l < indices.indices().len() && !index_in_bounds(
                    #[trigger] indices.indices()[l],
                    access.into_access_spec().spec_bounds(),
                ),
        },
{
    NarrowedAccess::try_new(indices, access.into_par_access())
}

/// The disjointness guarantee behind parallel use of a narrowed access:
/// two distinct locations always denote two distinct indices of the
/// underlying collection, so workers given disjoint location ranges can
/// never reach the same record.
pub proof fn lemma_narrowed_locations_disjoint<'a, Indices, Access>(
    a: NarrowedAccess<'a, Indices, Access>,
    l1: usize,
    l2: usize,
) where Indices: UniqueIndexList, Access: BoundedParAccess<Indices::Index>, Indices::Index: Copy
    requires
        a.inv(),
        l1 < a.index_list().indices().len(),
        l2 < a.index_list().indices().len(),
        l1 != l2,
    ensures
        a.index_list().indices()[l1 as int] != a.index_list().indices()[l2 as int],
{
    a.index_list().lemma_unique();
}

/// Narrowing an access to a range of its own indices is the round trip:
/// each location of the narrowed access reaches exactly the underlying
/// record at `range.start + loc`.  In particular, a collection of length
/// `n` narrowed to the identity range `0 .. n` serves, location by
/// location, exactly the records of the collection, each once.
pub proof fn lemma_identity_narrow<'a, Access>(
    a: NarrowedAccess<'a, core::ops::Range<usize>, Access>,
) where Access: BoundedParAccess<usize>
    requires
        a.inv(),
    ensures
        forall|loc: usize|
            a.contents().dom().contains(loc) ==> #[trigger] a.contents()[loc] == a.base().contents()[
                (a.index_list().start + loc) as usize
            ],
        a.index_list().start <= a.index_list().end ==> a.index_list().indices().len()
            == a.index_list().end - a.index_list().start,
{
}

/// Collects an index list into a vector, location by location.
pub fn collect_indices<Indices: IndexList>(indices: Indices) -> (r: Vec<Indices::Index>)
    requires
        indices.wf(),
    ensures
        r@ == indices.indices(),
{
    let ghost s = indices.indices();
    let n = indices.num_indices();
    let mut out: Vec<Indices::Index> = Vec::new();
    let mut loc: usize = 0;
    while loc < n
        invariant
            indices.wf(),
            s == indices.indices(),
            n == s.len(),
            loc <= n,
            out@ == s.subrange(0, loc as int),
        decreases n - loc,
    {
        let idx = indices.get_index(loc);
        out.push(idx);
        proof {
            assert(out@ =~= s.subrange(0, loc as int + 1));
        }
        loc += 1;
    }
    proof {
        assert(s.subrange(0, n as int) =~= s);
    }
    out
}

} // verus!
