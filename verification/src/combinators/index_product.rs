//! The Cartesian product of two index lists.

use vstd::prelude::*;
use crate::index_list::IndexList;
use crate::index_list::UniqueIndexList;
use crate::index_list::bounds_tight_on_axis;
use crate::index_list::index_in_bounds;
use crate::record_index::Bounds;
use crate::record_index::RecordIndex;
use crate::record_index::lemma_cib_concat;

verus! {

/// Splitting a location `l < n * m` by division and remainder yields a pair
/// of in-range component locations.
proof fn lemma_loc_split(l: int, m: int, n: int)
    requires
        0 < m,
        0 <= l,
        l < n * m,
    ensures
        0 <= l / m < n,
        0 <= l % m < m,
        l == (l / m) * m + (l % m),
{
    vstd::arithmetic::div_mod::lemma_fundamental_div_mod(l, m);
    vstd::arithmetic::div_mod::lemma_mod_bound(l, m);
    vstd::arithmetic::div_mod::lemma_div_pos_is_pos(l, m);
    vstd::arithmetic::mul::lemma_mul_is_commutative(l / m, m);
    if l / m >= n {
        vstd::arithmetic::mul::lemma_mul_inequality(n, l / m, m);
        assert(false);
    }
}

/// Joining in-range component locations `q` and `r` yields the in-range
/// location `q * m + r`, recovered exactly by division and remainder.
proof fn lemma_loc_join(q: int, r: int, m: int, n: int)
    requires
        0 < m,
        0 <= q < n,
        0 <= r < m,
    ensures
        0 <= q * m + r < n * m,
        (q * m + r) / m == q,
        (q * m + r) % m == r,
{
    vstd::arithmetic::div_mod::lemma_fundamental_div_mod_converse_div(q * m + r, m, q, r);
    vstd::arithmetic::div_mod::lemma_fundamental_div_mod_converse_mod(q * m + r, m, q, r);
    vstd::arithmetic::mul::lemma_mul_nonnegative(q, m);
    assert((q + 1) * m == q * m + m) by (nonlinear_arith);
    vstd::arithmetic::mul::lemma_mul_inequality(q + 1, n, m);
}

/// A Cartesian product of index lists.
///
/// Location `loc` maps to the pair at `(loc / m, loc % m)` where `m` is the
/// second list's length, so the second list varies fastest (row-major
/// nesting).
#[derive(Debug, Clone)]
pub struct IndexProduct<A, B>(pub A, pub B);

impl<A, B> IndexList for IndexProduct<A, B> where
    A: IndexList,
    B: IndexList,
    A::Index: Copy,
    B::Index: Copy,
 {
    type Index = (A::Index, B::Index);

    open spec fn wf(&self) -> bool {
        &&& self.0.wf()
        &&& self.1.wf()
        &&& self.0.indices().len() * self.1.indices().len() <= usize::MAX
    }

    open spec fn indices(&self) -> Seq<(A::Index, B::Index)> {
        Seq::new(
            self.0.indices().len() * self.1.indices().len(),
            |l: int|
                (
                    self.0.indices()[l / self.1.indices().len() as int],
                    self.1.indices()[l % self.1.indices().len() as int],
                ),
        )
    }

    open spec fn always_bounded() -> bool {
        A::always_bounded() && B::always_bounded()
    }

    open spec fn spec_bounds(&self) -> Option<Bounds<(A::Index, B::Index)>> {
        match (self.0.spec_bounds(), self.1.spec_bounds()) {
            (Some(ab), Some(bb)) => Some(
                Bounds { offset: (ab.offset, bb.offset), extent: (ab.extent, bb.extent) },
            ),
            _ => None,
        }
    }

    fn num_indices(&self) -> (n: usize) {
        self.0.num_indices() * self.1.num_indices()
    }

    fn get_index_unchecked(&self, loc: usize) -> (i: (A::Index, B::Index)) {
        let m = self.1.num_indices();
        proof {
            if m == 0 {
                assert(self.indices().len() == self.0.indices().len() * 0);
                vstd::arithmetic::mul::lemma_mul_by_zero_is_zero(self.0.indices().len() as int);
            }
            lemma_loc_split(loc as int, m as int, self.0.indices().len() as int);
        }
        let i = loc / m;
        let j = loc % m;
        (self.0.get_index_unchecked(i), self.1.get_index_unchecked(j))
    }

    fn bounds(&self) -> (b: Option<Bounds<(A::Index, B::Index)>>) {
        let ba = self.0.bounds();
        let bb = self.1.bounds();
        match (ba, bb) {
            (Some(ab), Some(bb)) => {
                let bn = Bounds { offset: (ab.offset, bb.offset), extent: (ab.extent, bb.extent) };
                proof {
                    self.lemma_product_bounds_ok(ab, bb, bn);
                }
                Some(bn)
            },
            _ => None,
        }
    }
}

impl<A, B> IndexProduct<A, B> where A: IndexList, B: IndexList, A::Index: Copy, B::Index: Copy {
    /// The zip of correct, tight component bounds is correct and tight for
    /// the product.
    proof fn lemma_product_bounds_ok(
        &self,
        ab: Bounds<A::Index>,
        bb: Bounds<B::Index>,
        bn: Bounds<(A::Index, B::Index)>,
    )
        requires
            self.wf(),
            crate::index_list::list_bounds_ok(self.0.indices(), ab),
            crate::index_list::list_bounds_ok(self.1.indices(), bb),
            bn == (Bounds { offset: (ab.offset, bb.offset), extent: (ab.extent, bb.extent) }),
        ensures
            crate::index_list::list_bounds_ok(self.indices(), bn),
    {
        let sa = self.0.indices();
        let sb = self.1.indices();
        let cs = self.indices();
        let n = sa.len() as int;
        let m = sb.len() as int;
        ab.offset.lemma_rank();
        ab.extent.lemma_rank();
        bb.offset.lemma_rank();
        bb.extent.lemma_rank();
        assert forall|l: int| 0 <= l < cs.len() implies index_in_bounds(#[trigger] cs[l], bn) by {
            lemma_loc_split(l, m, n);
            let i = l / m;
            let j = l % m;
            assert(index_in_bounds(sa[i], ab));
            assert(index_in_bounds(sb[j], bb));
            sa[i].lemma_rank();
            sb[j].lemma_rank();
            lemma_cib_concat(
                sa[i].coords(),
                ab.offset.coords(),
                ab.extent.coords(),
                sb[j].coords(),
                bb.offset.coords(),
                bb.extent.coords(),
            );
        }
        if cs.len() > 0 {
            assert(n > 0 && m > 0) by {
                vstd::arithmetic::mul::lemma_mul_by_zero_is_zero(n);
                vstd::arithmetic::mul::lemma_mul_by_zero_is_zero(m);
                if m == 0 {
                    assert(n * m == 0) by (nonlinear_arith)
                        requires m == 0;
                }
                if n == 0 {
                    assert(n * m == 0) by (nonlinear_arith)
                        requires n == 0;
                }
            }
            let ra = <A::Index as RecordIndex>::rank() as int;
            assert forall|d: int|
                0 <= d < <(A::Index, B::Index) as RecordIndex>::rank() implies #[trigger] bounds_tight_on_axis(
                cs,
                bn,
                d,
            ) by {
                if d < ra {
                    assert(bounds_tight_on_axis(sa, ab, d));
                    let la1 = choose|l: int|
                        0 <= l < sa.len() && (#[trigger] sa[l]).coords()[d]
                            == ab.offset.coords()[d];
                    let la2 = choose|l: int|
                        0 <= l < sa.len() && (#[trigger] sa[l]).coords()[d] == ab.offset.coords()[d]
                            + ab.extent.coords()[d] - 1;
                    lemma_loc_join(la1, 0, m, n);
                    lemma_loc_join(la2, 0, m, n);
                    let l1 = la1 * m;
                    let l2 = la2 * m;
                    assert(cs[l1] == (sa[la1], sb[0]));
                    assert(cs[l2] == (sa[la2], sb[0]));
                    sa[la1].lemma_rank();
                    sa[la2].lemma_rank();
                    assert(cs[l1].coords()[d] == bn.offset.coords()[d]);
                    assert(cs[l2].coords()[d] == bn.offset.coords()[d] + bn.extent.coords()[d]
                        - 1);
                } else {
                    assert(bounds_tight_on_axis(sb, bb, d - ra));
                    let lb1 = choose|l: int|
                        0 <= l < sb.len() && (#[trigger] sb[l]).coords()[d - ra]
                            == bb.offset.coords()[d - ra];
                    let lb2 = choose|l: int|
                        0 <= l < sb.len() && (#[trigger] sb[l]).coords()[d - ra]
                            == bb.offset.coords()[d - ra] + bb.extent.coords()[d - ra] - 1;
                    lemma_loc_join(0, lb1, m, n);
                    lemma_loc_join(0, lb2, m, n);
                    assert(cs[lb1] == (sa[0], sb[lb1]));
                    assert(cs[lb2] == (sa[0], sb[lb2]));
                    sa[0].lemma_rank();
                    sb[lb1].lemma_rank();
                    sb[lb2].lemma_rank();
                    assert(cs[lb1].coords()[d] == bn.offset.coords()[d]);
                    assert(cs[lb2].coords()[d] == bn.offset.coords()[d] + bn.extent.coords()[d]
                        - 1);
                }
            }
        }
    }
}

/// The product enumerates all pairs in row-major order: the pair of the
/// `i`-th index of the first list and the `j`-th index of the second list
/// stands at location `i * m + j`, where `m` is the second list's length.
pub proof fn lemma_product_row_major<A, B>(p: IndexProduct<A, B>, i: int, j: int) where
    A: IndexList,
    B: IndexList,
    A::Index: Copy,
    B::Index: Copy,

    requires
        p.wf(),
        0 <= i < p.0.indices().len(),
        0 <= j < p.1.indices().len(),
    ensures
        p.indices().len() == p.0.indices().len() * p.1.indices().len(),
        p.indices()[i * p.1.indices().len() + j] == (p.0.indices()[i], p.1.indices()[j]),
{
    lemma_loc_join(i, j, p.1.indices().len() as int, p.0.indices().len() as int);
}

impl<A, B> UniqueIndexList for IndexProduct<A, B> where
    A: UniqueIndexList,
    B: UniqueIndexList,
    A::Index: Copy,
    B::Index: Copy,
 {
    proof fn lemma_unique(&self) {
        let sa = self.0.indices();
        let sb = self.1.indices();
        let cs = self.indices();
        let n = sa.len() as int;
        let m = sb.len() as int;
        self.0.lemma_unique();
        self.1.lemma_unique();
        assert forall|l1: int, l2: int| 0 <= l1 < l2 < cs.len() implies cs[l1] != cs[l2] by {
            lemma_loc_split(l1, m, n);
            lemma_loc_split(l2, m, n);
            if cs[l1] == cs[l2] {
                assert(sa[l1 / m] == sa[l2 / m]);
                assert(sb[l1 % m] == sb[l2 % m]);
                assert(l1 / m == l2 / m);
                assert(l1 % m == l2 % m);
            }
        }
    }
}

} // verus!
