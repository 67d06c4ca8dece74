//! A runtime uniqueness check for arbitrary index lists.

use vstd::prelude::*;
use crate::error::NonUniqueIndex;
use crate::index_list::IndexList;
use crate::index_list::UniqueIndexList;
use crate::index_list::bounds_tight_on_axis;
use crate::index_list::distinct_indices;
use crate::index_list::index_in_bounds;
use crate::index_list::list_bounds_ok;
use crate::index_list::list_in_bounds;
use crate::record_index::Bounds;
use crate::record_index::RecordIndex;
use crate::record_index::can_enclose;
use crate::record_index::coords_contain_bounds;

verus! {

/// Any two indices of the list are, on every axis, closer to each other
/// than the index type's extent limit, so that bounds enclosing the whole
/// list are representable.
pub open spec fn enclosable_list<I: RecordIndex>(s: Seq<I>) -> bool {
    forall|l1: int, l2: int, d: int|
        0 <= l1 < s.len() && 0 <= l2 < s.len() && 0 <= d < I::rank() ==> (#[trigger] s[l1].coords()[
            d
        ]) - (#[trigger] s[l2].coords()[d]) < I::extent_limit()
}

/// Tight bounds are minimal: any bounds containing every index of a
/// non-empty list contain the list's tight bounds.
pub proof fn lemma_tight_bounds_minimal<I: RecordIndex>(s: Seq<I>, b: Bounds<I>, c: Bounds<I>)
    requires
        s.len() > 0,
        list_bounds_ok(s, b),
        list_in_bounds(s, c),
    ensures
        coords_contain_bounds(
            c.offset.coords(),
            c.extent.coords(),
            b.offset.coords(),
            b.extent.coords(),
        ),
{
    c.offset.lemma_rank();
    c.extent.lemma_rank();
    b.offset.lemma_rank();
    b.extent.lemma_rank();
    assert forall|d: int| 0 <= d < c.offset.coords().len() implies c.offset.coords()[d]
        <= #[trigger] b.offset.coords()[d] && b.offset.coords()[d] + b.extent.coords()[d]
        <= c.offset.coords()[d] + c.extent.coords()[d] by {
        assert(bounds_tight_on_axis(s, b, d));
        let l1 = choose|l: int|
            0 <= l < s.len() && (#[trigger] s[l]).coords()[d] == b.offset.coords()[d];
        assert(index_in_bounds(s[l1], c));
        s[l1].lemma_rank();
        assert(c.offset.coords()[d] <= s[l1].coords()[d]);
        let l2 = choose|l: int|
            0 <= l < s.len() && (#[trigger] s[l]).coords()[d] == b.offset.coords()[d]
                + b.extent.coords()[d] - 1;
        assert(index_in_bounds(s[l2], c));
        s[l2].lemma_rank();
        assert(s[l2].coords()[d] < c.offset.coords()[d] + c.extent.coords()[d]);
    }
}

/// A list of indices that are checked to be unique.
///
/// Construction visits every location once, rejects the first duplicate,
/// and computes the tightest enclosing bounds in the same pass.
#[derive(Debug, Clone)]
pub struct CheckedUnique<Indices: IndexList> {
    indices: Indices,
    bounds: Bounds<Indices::Index>,
}

impl<Indices: IndexList> CheckedUnique<Indices> where Indices::Index: Copy {
    /// The wrapped index list.
    pub closed spec fn inner(&self) -> Indices {
        self.indices
    }

    /// Obtain a reference to the underlying index list.
    pub fn get_inner(&self) -> (r: &Indices)
        ensures
            r == self.inner(),
            self.wf() ==> r.wf() && r.indices() == self.indices(),
    {
        &self.indices
    }

    /// Recover the underlying index list.
    pub fn into_inner(self) -> (r: Indices)
        ensures
            r == self.inner(),
            self.wf() ==> r.wf() && r.indices() == self.indices(),
    {
        self.indices
    }

    /// Check that the provided indices are unique.
    ///
    /// On success, wraps the list in [`CheckedUnique`], caching the tightest
    /// bounds of the list, computed in the same pass.  An error is returned
    /// if and only if two locations hold equal indices.
    pub fn from_hashable_indices(indices: Indices) -> (r: Result<Self, NonUniqueIndex>)
        requires
            indices.wf(),
            enclosable_list(indices.indices()),
        ensures
            match r {
                Ok(c) => {
                    &&& distinct_indices(indices.indices())
                    &&& c.wf()
                    &&& c.inner() == indices
                    &&& c.indices() == indices.indices()
                },
                Err(_) => !distinct_indices(indices.indices()),
            },
    {
        let ghost s = indices.indices();
        let n = indices.num_indices();
        if n == 0 {
            let bounds = Bounds::new_empty();
            return Ok(CheckedUnique { indices, bounds });
        }
        let first = indices.get_index(0);
        let mut bounds = Bounds::bounds_for_index(first);
        proof {
            first.lemma_rank();
            bounds.offset.lemma_rank();
            bounds.extent.lemma_rank();
            let pre = s.subrange(0, 1);
            assert(pre[0] == first);
            assert(index_in_bounds(first, bounds));
            assert forall|d: int|
                0 <= d < <Indices::Index as RecordIndex>::rank() implies #[trigger] bounds_tight_on_axis(
                pre,
                bounds,
                d,
            ) by {
                assert(pre[0].coords()[d] == bounds.offset.coords()[d]);
                assert(pre[0].coords()[d] == bounds.offset.coords()[d] + bounds.extent.coords()[d]
                    - 1);
            }
        }
        let mut loc: usize = 1;
        while loc < n
            invariant
                indices.wf(),
                s == indices.indices(),
                enclosable_list(s),
                n == s.len(),
                1 <= loc <= n,
                distinct_indices(s.subrange(0, loc as int)),
                list_bounds_ok(s.subrange(0, loc as int), bounds),
            decreases n - loc,
        {
            let idx = indices.get_index(loc);
            let mut k: usize = 0;
            while k < loc
                invariant
                    indices.wf(),
                    s == indices.indices(),
                    n == s.len(),
                    loc < n,
                    k <= loc,
                    idx == s[loc as int],
                    forall|j: int| 0 <= j < k ==> s[j] != s[loc as int],
                decreases loc - k,
            {
                let prev = indices.get_index(k);
                if prev.index_eq(&idx) {
                    proof {
                        assert(s[k as int] == s[loc as int]);
                        assert(!distinct_indices(s));
                    }
                    return Err(NonUniqueIndex);
                }
                k += 1;
            }
            let ghost pre = s.subrange(0, loc as int);
            let ghost old_bounds = bounds;
            proof {
                idx.lemma_rank();
                <Indices::Index as RecordIndex>::lemma_extent_limit();
                // The enclosing step stays within the representable extent:
                // both extremes of the current bounds are attained by
                // earlier indices, and any two indices of the list are
                // closer than the extent limit.
                assert forall|d: int|
                    0 <= d < idx.coords().len() implies vstd::math::max(
                    bounds.offset.coords()[d] + bounds.extent.coords()[d],
                    idx.coords()[d] + 1,
                ) - #[trigger] vstd::math::min(bounds.offset.coords()[d], idx.coords()[d])
                    <= <Indices::Index as RecordIndex>::extent_limit() by {
                    assert(bounds_tight_on_axis(pre, bounds, d));
                    let l1 = choose|l: int|
                        0 <= l < pre.len() && (#[trigger] pre[l]).coords()[d]
                            == bounds.offset.coords()[d];
                    let l2 = choose|l: int|
                        0 <= l < pre.len() && (#[trigger] pre[l]).coords()[d]
                            == bounds.offset.coords()[d] + bounds.extent.coords()[d] - 1;
                    assert(pre[l1] == s[l1] && pre[l2] == s[l2]);
                    assert(s[l2].coords()[d] - s[l1].coords()[d]
                        < <Indices::Index as RecordIndex>::extent_limit());
                    assert(s[l2].coords()[d] - s[loc as int].coords()[d]
                        < <Indices::Index as RecordIndex>::extent_limit());
                    assert(s[loc as int].coords()[d] - s[l1].coords()[d]
                        < <Indices::Index as RecordIndex>::extent_limit());
                }
            }
            bounds.enclose_index(idx);
            proof {
                old_bounds.offset.lemma_rank();
                old_bounds.extent.lemma_rank();
                bounds.offset.lemma_rank();
                bounds.extent.lemma_rank();
                let post = s.subrange(0, loc as int + 1);
                assert(post == pre.push(idx));
                // Containment of every index seen so far.
                assert forall|l: int| 0 <= l < post.len() implies index_in_bounds(
                    #[trigger] post[l],
                    bounds,
                ) by {
                    post[l].lemma_rank();
                    if l < pre.len() {
                        assert(post[l] == pre[l]);
                        assert(index_in_bounds(pre[l], old_bounds));
                    } else {
                        assert(post[l] == idx);
                    }
                }
                // Tightness on every axis.
                assert forall|d: int|
                    0 <= d < <Indices::Index as RecordIndex>::rank() implies #[trigger] bounds_tight_on_axis(
                    post,
                    bounds,
                    d,
                ) by {
                    assert(bounds_tight_on_axis(pre, old_bounds, d));
                    let l1 = choose|l: int|
                        0 <= l < pre.len() && (#[trigger] pre[l]).coords()[d]
                            == old_bounds.offset.coords()[d];
                    let l2 = choose|l: int|
                        0 <= l < pre.len() && (#[trigger] pre[l]).coords()[d]
                            == old_bounds.offset.coords()[d] + old_bounds.extent.coords()[d] - 1;
                    assert(post[l1] == pre[l1] && post[l2] == pre[l2]);
                    assert(post[loc as int] == idx);
                    if old_bounds.offset.coords()[d] <= idx.coords()[d] {
                        assert(post[l1].coords()[d] == bounds.offset.coords()[d]);
                    } else {
                        assert(post[loc as int].coords()[d] == bounds.offset.coords()[d]);
                    }
                    if old_bounds.offset.coords()[d] + old_bounds.extent.coords()[d]
                        >= idx.coords()[d] + 1 {
                        assert(post[l2].coords()[d] == bounds.offset.coords()[d]
                            + bounds.extent.coords()[d] - 1);
                    } else {
                        assert(post[loc as int].coords()[d] == bounds.offset.coords()[d]
                            + bounds.extent.coords()[d] - 1);
                    }
                }
                // Distinctness of the extended prefix.
                assert forall|l1: int, l2: int| 0 <= l1 < l2 < post.len() implies post[l1]
                    != post[l2] by {
                    if l2 < pre.len() {
                        assert(pre[l1] != pre[l2]);
                    } else {
                        assert(post[l2] == idx);
                        assert(s[l1] != s[loc as int]);
                    }
                }
            }
            loc += 1;
        }
        proof {
            assert(s.subrange(0, n as int) =~= s);
        }
        Ok(CheckedUnique { indices, bounds })
    }
}

impl<Indices: IndexList> IndexList for CheckedUnique<Indices> where Indices::Index: Copy {
    type Index = Indices::Index;

    closed spec fn wf(&self) -> bool {
        &&& self.indices.wf()
        &&& distinct_indices(self.indices.indices())
        &&& list_bounds_ok(self.indices.indices(), self.bounds)
    }

    closed spec fn indices(&self) -> Seq<Self::Index> {
        self.indices.indices()
    }

    open spec fn always_bounded() -> bool {
        true
    }

    closed spec fn spec_bounds(&self) -> Option<Bounds<Self::Index>> {
        Some(self.bounds)
    }

    fn num_indices(&self) -> (n: usize) {
        self.indices.num_indices()
    }

    fn get_index_unchecked(&self, loc: usize) -> (i: Self::Index) {
        self.indices.get_index_unchecked(loc)
    }

    fn bounds(&self) -> (b: Option<Bounds<Self::Index>>) {
        Some(self.bounds)
    }
}

impl<Indices: IndexList> UniqueIndexList for CheckedUnique<Indices> where Indices::Index: Copy {
    proof fn lemma_unique(&self) {
    }
}

} // verus!
