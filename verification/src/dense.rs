//! A dense, column-major matrix access: the example integration of the
//! access traits for a two-dimensional collection.

use vstd::prelude::*;
use crate::index_list::index_in_bounds;
use crate::par_access::BoundedParAccess;
use crate::par_access::ParAccess;
use crate::record_index::Bounds;
use crate::record_index::RecordIndex;
use crate::record_index::coords_in_bounds;

verus! {

/// Membership of a pair index in two-dimensional bounds is the pair of
/// interval checks.
pub proof fn lemma_pair_in_bounds(ij: (usize, usize), b: Bounds<(usize, usize)>)
    ensures
        index_in_bounds(ij, b) <==> (b.offset.0 <= ij.0 < b.offset.0 + b.extent.0 && b.offset.1
            <= ij.1 < b.offset.1 + b.extent.1),
{
    let i = ij.0;
    let j = ij.1;
    assert(ij.coords() == seq![i as int, j as int]) by {
        assert(ij.coords() =~= seq![i as int, j as int]);
    }
    assert(b.offset.coords() =~= seq![b.offset.0 as int, b.offset.1 as int]);
    assert(b.extent.coords() =~= seq![b.extent.0 as int, b.extent.1 as int]);
    if coords_in_bounds(ij.coords(), b.offset.coords(), b.extent.coords()) {
        assert(ij.coords()[0] >= b.offset.coords()[0]);
        assert(ij.coords()[0] < b.offset.coords()[0] + b.extent.coords()[0]);
        assert(ij.coords()[1] >= b.offset.coords()[1]);
        assert(ij.coords()[1] < b.offset.coords()[1] + b.extent.coords()[1]);
    }
    if b.offset.0 <= i < b.offset.0 + b.extent.0 && b.offset.1 <= j < b.offset.1 + b.extent.1 {
        assert forall|d: int| 0 <= d < ij.coords().len() implies b.offset.coords()[d]
            <= #[trigger] ij.coords()[d] < b.offset.coords()[d] + b.extent.coords()[d] by {
            if d == 0 {
                assert(ij.coords()[0] == i as int);
            } else {
                assert(ij.coords()[1] == j as int);
            }
        }
    }
}

/// The linear position of entry `(i, j)` in column-major storage with
/// `rows` rows.
pub open spec fn col_major_pos(i: usize, j: usize, rows: usize) -> int {
    j * rows + i
}

/// Column-major positions of in-range entries are in range and injective.
proof fn lemma_col_major(i: usize, j: usize, rows: usize, cols: usize)
    requires
        i < rows,
        j < cols,
    ensures
        0 <= col_major_pos(i, j, rows) < rows * cols,
        col_major_pos(i, j, rows) / (rows as int) == j,
        col_major_pos(i, j, rows) % (rows as int) == i,
{
    vstd::arithmetic::div_mod::lemma_fundamental_div_mod_converse_div(
        j * rows + i,
        rows as int,
        j as int,
        i as int,
    );
    vstd::arithmetic::div_mod::lemma_fundamental_div_mod_converse_mod(
        j * rows + i,
        rows as int,
        j as int,
        i as int,
    );
    vstd::arithmetic::mul::lemma_mul_nonnegative(j as int, rows as int);
    assert((j + 1) * rows == j * rows + rows) by (nonlinear_arith);
    vstd::arithmetic::mul::lemma_mul_inequality(j as int + 1, cols as int, rows as int);
    vstd::arithmetic::mul::lemma_mul_is_commutative(cols as int, rows as int);
}

/// Mutable access to the entries of a dense, column-major matrix, indexed
/// by `(row, column)` pairs.
#[derive(Debug)]
pub struct DMatrixParAccessMut<T> {
    data: Vec<T>,
    rows: usize,
    cols: usize,
}

impl<T> DMatrixParAccessMut<T> {
    /// The entries in column-major order.
    pub closed spec fn records(&self) -> Seq<T> {
        self.data@
    }

    /// The number of rows.
    pub closed spec fn nrows(&self) -> usize {
        self.rows
    }

    /// The number of columns.
    pub closed spec fn ncols(&self) -> usize {
        self.cols
    }

    /// Obtain access to a matrix given by its column-major entries and its
    /// dimensions.
    pub fn from_matrix_parts(data: Vec<T>, rows: usize, cols: usize) -> (r: Self)
        requires
            data@.len() == rows * cols,
        ensures
            r.inv(),
            r.records() == data@,
            r.nrows() == rows,
            r.ncols() == cols,
    {
        proof {
            broadcast use vstd::std_specs::vec::axiom_spec_len;

            assert(data.len() == data@.len());
        }
        DMatrixParAccessMut { data, rows, cols }
    }

    /// Recover the column-major entries.
    pub fn into_records(self) -> (r: Vec<T>)
        ensures
            r@ == self.records(),
    {
        self.data
    }

    /// The record at in-range `(i, j)` is the entry at column-major
    /// position `j * nrows + i`.
    pub proof fn lemma_view(&self, ij: (usize, usize))
        requires
            self.inv(),
            ij.0 < self.nrows(),
            ij.1 < self.ncols(),
        ensures
            self.contents().dom().contains(ij),
            self.contents()[ij] == self.records()[col_major_pos(ij.0, ij.1, self.nrows())],
    {
        lemma_col_major(ij.0, ij.1, self.rows, self.cols);
    }
}

impl<T> ParAccess<(usize, usize)> for DMatrixParAccessMut<T> {
    type Record = T;

    closed spec fn inv(&self) -> bool {
        &&& self.data@.len() == self.rows * self.cols
        &&& self.rows * self.cols <= usize::MAX
    }

    closed spec fn contents(&self) -> Map<(usize, usize), T> {
        Map::new(
            |ij: (usize, usize)| ij.0 < self.rows && ij.1 < self.cols,
            |ij: (usize, usize)| self.data@[col_major_pos(ij.0, ij.1, self.rows)],
        )
    }

    fn get_unsync_unchecked(&self, index: (usize, usize)) -> (r: &T) {
        let (i, j) = index;
        proof {
            lemma_col_major(i, j, self.rows, self.cols);
        }
        &self.data[j * self.rows + i]
    }

    fn set_unsync_unchecked(&mut self, index: (usize, usize), value: T) {
        let (i, j) = index;
        proof {
            lemma_col_major(i, j, self.rows, self.cols);
        }
        let pos = j * self.rows + i;
        let slot = &mut self.data[pos];
        *slot = value;
        proof {
            assert forall|kl: (usize, usize)|
                self.contents().dom().contains(kl) implies #[trigger] self.contents()[kl] == old(
                self,
            ).contents().insert(index, value)[kl] by {
                lemma_col_major(kl.0, kl.1, self.rows, self.cols);
                if kl != index {
                    assert(col_major_pos(kl.0, kl.1, self.rows) != col_major_pos(
                        i,
                        j,
                        self.rows,
                    ));
                }
            }
            assert(self.contents() =~= old(self).contents().insert(index, value));
        }
    }
}

impl<T> BoundedParAccess<(usize, usize)> for DMatrixParAccessMut<T> {
    closed spec fn spec_bounds(&self) -> Bounds<(usize, usize)> {
        Bounds { offset: (0usize, 0usize), extent: (self.rows, self.cols) }
    }

    proof fn lemma_in_bounds_dom(&self, index: (usize, usize)) {
        lemma_pair_in_bounds(index, self.spec_bounds());
    }

    fn bounds(&self) -> (b: Bounds<(usize, usize)>) {
        Bounds { offset: (0, 0), extent: (self.rows, self.cols) }
    }

    fn in_bounds(&self, index: (usize, usize)) -> (r: bool) {
        proof {
            lemma_pair_in_bounds(index, self.spec_bounds());
        }
        index.0 < self.rows && index.1 < self.cols
    }
}

} // verus!
