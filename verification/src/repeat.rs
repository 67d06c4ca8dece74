//! An index list that repeats one fixed index.

use vstd::prelude::*;
use crate::index_list::IndexList;
use crate::index_list::bounds_tight_on_axis;
use crate::record_index::Bounds;
use crate::record_index::RecordIndex;

verus! {

/// An index list consisting of an index repeated a finite number of times.
///
/// Repetition obviously does not preserve uniqueness, so [`Repeat`] is not a
/// unique index list; it is typically zipped against a unique list to pin
/// one axis, as in selecting a single row of a grid.
#[derive(Debug, Clone)]
pub struct Repeat<I> {
    value: I,
    times: usize,
}

impl<I> Repeat<I> {
    /// The repeated index.
    pub closed spec fn fixed_value(&self) -> I {
        self.value
    }

    /// The number of repetitions.
    pub closed spec fn repetitions(&self) -> nat {
        self.times as nat
    }

    /// Construct an index list with 0 repetitions of the provided index value.
    pub fn value(value: I) -> (r: Self)
        ensures
            r.fixed_value() == value,
            r.repetitions() == 0,
    {
        Repeat { value, times: 0 }
    }

    /// Construct a new index list where the current value is repeated the
    /// specified number of times.
    pub fn times(self, times: usize) -> (r: Self)
        ensures
            r.fixed_value() == self.fixed_value(),
            r.repetitions() == times,
    {
        Repeat { value: self.value, times }
    }
}

impl<I: RecordIndex + Copy> IndexList for Repeat<I> {
    type Index = I;

    open spec fn wf(&self) -> bool {
        true
    }

    open spec fn indices(&self) -> Seq<I> {
        Seq::new(self.repetitions(), |l: int| self.fixed_value())
    }

    open spec fn always_bounded() -> bool {
        true
    }

    open spec fn spec_bounds(&self) -> Option<Bounds<I>> {
        Some(Bounds { offset: self.fixed_value(), extent: I::unit_extent() })
    }

    fn num_indices(&self) -> (n: usize) {
        self.times
    }

    fn get_index_unchecked(&self, loc: usize) -> (i: I) {
        self.value
    }

    fn bounds(&self) -> (b: Option<Bounds<I>>) {
        let bn = Bounds::bounds_for_index(self.value);
        proof {
            self.value.lemma_rank();
            bn.offset.lemma_rank();
            bn.extent.lemma_rank();
            let s = self.indices();
            if s.len() > 0 {
                assert forall|d: int| 0 <= d < I::rank() implies #[trigger] bounds_tight_on_axis(
                    s,
                    bn,
                    d,
                ) by {
                    assert(s[0].coords()[d] == bn.offset.coords()[d]);
                    assert(s[0].coords()[d] == bn.offset.coords()[d] + bn.extent.coords()[d] - 1);
                }
            }
        }
        Some(bn)
    }
}

} // verus!
