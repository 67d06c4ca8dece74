//! Lossless conversion between index types.

use vstd::prelude::*;
use crate::record_index::RecordIndex;

verus! {

/// Enables conversion of indices.
///
/// The intention behind this trait is to permit converting e.g. `u32` type
/// indices (or tuples thereof) to `usize`-based indices.  A conversion
/// preserves the coordinates of the index exactly, so it cannot change
/// which record an index denotes.
pub trait IndexFrom<SourceIndex: RecordIndex>: RecordIndex {
    /// The source values this conversion accepts: those whose coordinates
    /// are representable in the target type.
    spec fn can_convert(source: SourceIndex) -> bool;

    /// The converted index, as a specification-level value.
    spec fn spec_index_from(source: SourceIndex) -> Self;

    /// A conversion preserves coordinates exactly.
    proof fn lemma_index_from(source: SourceIndex)
        requires
            Self::can_convert(source),
        ensures
            Self::spec_index_from(source).coords() == source.coords(),
    ;

    /// Convert the source index to `Self`, the target index type.
    fn index_from(source: SourceIndex) -> (r: Self)
        requires
            Self::can_convert(source),
        ensures
            r == Self::spec_index_from(source),
    ;
}

impl IndexFrom<usize> for usize {
    open spec fn can_convert(source: usize) -> bool {
        true
    }

    open spec fn spec_index_from(source: usize) -> Self {
        source
    }

    proof fn lemma_index_from(source: usize) {
    }

    fn index_from(source: usize) -> (r: Self) {
        source
    }
}

impl IndexFrom<u32> for usize {
    open spec fn can_convert(source: u32) -> bool {
        source as int <= usize::MAX as int
    }

    open spec fn spec_index_from(source: u32) -> Self {
        source as usize
    }

    proof fn lemma_index_from(source: u32) {
    }

    fn index_from(source: u32) -> (r: Self) {
        source as usize
    }
}

impl IndexFrom<u64> for usize {
    open spec fn can_convert(source: u64) -> bool {
        source as int <= usize::MAX as int
    }

    open spec fn spec_index_from(source: u64) -> Self {
        source as usize
    }

    proof fn lemma_index_from(source: u64) {
    }

    fn index_from(source: u64) -> (r: Self) {
        source as usize
    }
}

impl<A, B, TA, TB> IndexFrom<(A, B)> for (TA, TB) where
    A: RecordIndex + Copy,
    B: RecordIndex + Copy,
    TA: IndexFrom<A> + Copy,
    TB: IndexFrom<B> + Copy,
 {
    open spec fn can_convert(source: (A, B)) -> bool {
        TA::can_convert(source.0) && TB::can_convert(source.1)
    }

    open spec fn spec_index_from(source: (A, B)) -> Self {
        (TA::spec_index_from(source.0), TB::spec_index_from(source.1))
    }

    proof fn lemma_index_from(source: (A, B)) {
        TA::lemma_index_from(source.0);
        TB::lemma_index_from(source.1);
    }

    fn index_from(source: (A, B)) -> (r: Self) {
        (TA::index_from(source.0), TB::index_from(source.1))
    }
}

impl<A, B, C, TA, TB, TC> IndexFrom<(A, B, C)> for (TA, TB, TC) where
    A: RecordIndex + Copy,
    B: RecordIndex + Copy,
    C: RecordIndex + Copy,
    TA: IndexFrom<A> + Copy,
    TB: IndexFrom<B> + Copy,
    TC: IndexFrom<C> + Copy,
 {
    open spec fn can_convert(source: (A, B, C)) -> bool {
        TA::can_convert(source.0) && TB::can_convert(source.1) && TC::can_convert(source.2)
    }

    open spec fn spec_index_from(source: (A, B, C)) -> Self {
        (TA::spec_index_from(source.0), TB::spec_index_from(source.1), TC::spec_index_from(source.2))
    }

    proof fn lemma_index_from(source: (A, B, C)) {
        TA::lemma_index_from(source.0);
        TB::lemma_index_from(source.1);
        TC::lemma_index_from(source.2);
    }

    fn index_from(source: (A, B, C)) -> (r: Self) {
        (TA::index_from(source.0), TB::index_from(source.1), TC::index_from(source.2))
    }
}

impl<A, B, C, D, TA, TB, TC, TD> IndexFrom<(A, B, C, D)> for (TA, TB, TC, TD) where
    A: RecordIndex + Copy,
    B: RecordIndex + Copy,
    C: RecordIndex + Copy,
    D: RecordIndex + Copy,
    TA: IndexFrom<A> + Copy,
    TB: IndexFrom<B> + Copy,
    TC: IndexFrom<C> + Copy,
    TD: IndexFrom<D> + Copy,
 {
    open spec fn can_convert(source: (A, B, C, D)) -> bool {
        TA::can_convert(source.0) && TB::can_convert(source.1) && TC::can_convert(source.2)
            && TD::can_convert(source.3)
    }

    open spec fn spec_index_from(source: (A, B, C, D)) -> Self {
        (
            TA::spec_index_from(source.0),
            TB::spec_index_from(source.1),
            TC::spec_index_from(source.2),
            TD::spec_index_from(source.3),
        )
    }

    proof fn lemma_index_from(source: (A, B, C, D)) {
        TA::lemma_index_from(source.0);
        TB::lemma_index_from(source.1);
        TC::lemma_index_from(source.2);
        TD::lemma_index_from(source.3);
    }

    fn index_from(source: (A, B, C, D)) -> (r: Self) {
        (
            TA::index_from(source.0),
            TB::index_from(source.1),
            TC::index_from(source.2),
            TD::index_from(source.3),
        )
    }
}

impl<A, B, C, D, E, TA, TB, TC, TD, TE> IndexFrom<(A, B, C, D, E)> for (TA, TB, TC, TD, TE) where
    A: RecordIndex + Copy,
    B: RecordIndex + Copy,
    C: RecordIndex + Copy,
    D: RecordIndex + Copy,
    E: RecordIndex + Copy,
    TA: IndexFrom<A> + Copy,
    TB: IndexFrom<B> + Copy,
    TC: IndexFrom<C> + Copy,
    TD: IndexFrom<D> + Copy,
    TE: IndexFrom<E> + Copy,
 {
    open spec fn can_convert(source: (A, B, C, D, E)) -> bool {
        TA::can_convert(source.0) && TB::can_convert(source.1) && TC::can_convert(source.2)
            && TD::can_convert(source.3) && TE::can_convert(source.4)
    }

    open spec fn spec_index_from(source: (A, B, C, D, E)) -> Self {
        (
            TA::spec_index_from(source.0),
            TB::spec_index_from(source.1),
            TC::spec_index_from(source.2),
            TD::spec_index_from(source.3),
            TE::spec_index_from(source.4),
        )
    }

    proof fn lemma_index_from(source: (A, B, C, D, E)) {
        TA::lemma_index_from(source.0);
        TB::lemma_index_from(source.1);
        TC::lemma_index_from(source.2);
        TD::lemma_index_from(source.3);
        TE::lemma_index_from(source.4);
    }

    fn index_from(source: (A, B, C, D, E)) -> (r: Self) {
        (
            TA::index_from(source.0),
            TB::index_from(source.1),
            TC::index_from(source.2),
            TD::index_from(source.3),
            TE::index_from(source.4),
        )
    }
}

} // verus!
