//! The index algebra: scalar and tuple record indices, and rectangular
//! [`Bounds`] over them.
//!
//! Every index is modelled by the sequence of its integer coordinates
//! ([`RecordIndex::coords`]): a scalar has one coordinate, a tuple the
//! concatenation of its components' coordinates.  All bounds arithmetic is
//! specified per coordinate over that model.

use vstd::prelude::*;

verus! {

/// Marker trait bounding the closed set of types usable as record indices.
pub trait Sealed {
}

impl Sealed for u8 {
}

impl Sealed for u16 {
}

impl Sealed for u32 {
}

impl Sealed for u64 {
}

impl Sealed for usize {
}

impl<I0> Sealed for (I0,) {
}

impl<I0, I1> Sealed for (I0, I1) {
}

impl<I0, I1, I2> Sealed for (I0, I1, I2) {
}

impl<I0, I1, I2, I3> Sealed for (I0, I1, I2, I3) {
}

impl<I0, I1, I2, I3, I4> Sealed for (I0, I1, I2, I3, I4) {
}

/// The coordinates `i` lie inside the rectangular region with the given
/// offset and extent coordinates: on every axis, `off[d] <= i[d] < off[d] + ext[d]`.
pub open spec fn coords_in_bounds(i: Seq<int>, off: Seq<int>, ext: Seq<int>) -> bool {
    forall|d: int| 0 <= d < i.len() ==> off[d] <= #[trigger] i[d] < off[d] + ext[d]
}

/// The region `(o2, e2)` is contained in the region `(o1, e1)`: on every
/// axis, `o1[d] <= o2[d]` and `o2[d] + e2[d] <= o1[d] + e1[d]`.
pub open spec fn coords_contain_bounds(o1: Seq<int>, e1: Seq<int>, o2: Seq<int>, e2: Seq<int>) -> bool {
    forall|d: int| 0 <= d < o1.len() ==> o1[d] <= #[trigger] o2[d] && o2[d] + e2[d] <= o1[d] + e1[d]
}

/// Growing the region `(off, ext)` to enclose the coordinates `i` yields
/// extents of at most `limit` on every axis, so the result still fits the
/// index type.
pub open spec fn can_enclose(off: Seq<int>, ext: Seq<int>, i: Seq<int>, limit: int) -> bool {
    forall|d: int|
        0 <= d < i.len() ==> vstd::math::max(off[d] + ext[d], i[d] + 1) - #[trigger] vstd::math::min(
            off[d],
            i[d],
        ) <= limit
}

/// Every coordinate of `s` is zero.
pub open spec fn coords_all_zero(s: Seq<int>) -> bool {
    forall|d: int| 0 <= d < s.len() ==> #[trigger] s[d] == 0
}

/// Every coordinate of `s` is one.
pub open spec fn coords_all_one(s: Seq<int>) -> bool {
    forall|d: int| 0 <= d < s.len() ==> #[trigger] s[d] == 1
}

/// The region `(new_off, new_ext)` is the result of minimally growing the
/// region `(old_off, old_ext)` to enclose the coordinates `i`: on every
/// axis the new region starts at the lower of the old start and the index,
/// and ends at the higher of the old end and the index.
pub open spec fn enclose_result_ok(
    old_off: Seq<int>,
    old_ext: Seq<int>,
    i: Seq<int>,
    new_off: Seq<int>,
    new_ext: Seq<int>,
) -> bool {
    &&& new_off.len() == old_off.len()
    &&& new_ext.len() == old_ext.len()
    &&& forall|d: int|
        0 <= d < i.len() ==> #[trigger] new_off[d] == vstd::math::min(old_off[d], i[d])
    &&& forall|d: int|
        0 <= d < i.len() ==> #[trigger] new_ext[d] == vstd::math::max(
            old_off[d] + old_ext[d],
            i[d] + 1,
        ) - vstd::math::min(old_off[d], i[d])
}

/// A type suitable for use as an index into a collection of records.
///
/// Two distinct indices must never denote the same record; this is captured
/// by [`RecordIndex::lemma_coords_inj`]: the coordinate model is injective.
pub trait RecordIndex: Sealed + Sized {
    /// The number of coordinates (axes) of this index type.
    spec fn rank() -> nat;

    /// The mathematical model of an index: one integer per axis.
    spec fn coords(self) -> Seq<int>;

    /// An upper bound for extents representable on every axis of this type.
    spec fn extent_limit() -> int;

    /// The extent value with coordinate one on every axis.
    spec fn unit_extent() -> Self;

    /// The extent limit is positive.
    proof fn lemma_extent_limit()
        ensures
            Self::extent_limit() > 0,
    ;

    /// Every index has exactly `rank` coordinates, and at least one.
    proof fn lemma_rank(self)
        ensures
            self.coords().len() == Self::rank(),
            Self::rank() > 0,
    ;

    /// Indices with equal coordinates are equal.
    proof fn lemma_coords_inj(self, other: Self)
        ensures
            self.coords() == other.coords() ==> self == other,
    ;

    /// Decides equality of two indices.
    fn index_eq(&self, other: &Self) -> (r: bool)
        ensures
            r == (*self == *other),
    ;

    /// Determine if a set of bounds contains another set of bounds.
    fn contains_bounds(container: &Bounds<Self>, bounds: &Bounds<Self>) -> (r: bool)
        ensures
            r == coords_contain_bounds(
                container.offset.coords(),
                container.extent.coords(),
                bounds.offset.coords(),
                bounds.extent.coords(),
            ),
    ;

    /// Determine if this index is contained inside the provided bounds.
    fn in_bounds(&self, bounds: &Bounds<Self>) -> (r: bool)
        ensures
            r == coords_in_bounds(self.coords(), bounds.offset.coords(), bounds.extent.coords()),
    ;

    /// Expand these bounds so that they contain the given index, by moving
    /// each offset coordinate down to the index and growing the extent to
    /// the furthest covered point.
    fn enclose_index(bounds: &mut Bounds<Self>, index: Self)
        requires
            can_enclose(
                old(bounds).offset.coords(),
                old(bounds).extent.coords(),
                index.coords(),
                Self::extent_limit(),
            ),
        ensures
            enclose_result_ok(
                old(bounds).offset.coords(),
                old(bounds).extent.coords(),
                index.coords(),
                final(bounds).offset.coords(),
                final(bounds).extent.coords(),
            ),
    ;

    /// Returns a set of bounds that are empty (zero extent, zero offset).
    fn empty_bounds() -> (r: Bounds<Self>)
        ensures
            coords_all_zero(r.offset.coords()),
            coords_all_zero(r.extent.coords()),
    ;

    /// Returns a set of bounds that contain exactly the provided index.
    fn bounds_for_index(index: Self) -> (r: Bounds<Self>)
        ensures
            r.offset == index,
            r.extent == Self::unit_extent(),
            coords_all_one(r.extent.coords()),
    ;
}

/// Bounds associated with an index type: a rectangular region described by
/// an *offset* and an *extent*, per axis.
#[derive(Debug, Clone, Copy, PartialEq, Eq)]
pub struct Bounds<I> {
    /// The offset of the bounds.
    pub offset: I,
    /// The extent of the bounds.
    pub extent: I,
}

impl<I> Bounds<I> {
    /// Zips the offset and extent of two [`Bounds`] instances.
    pub fn zip<I2>(self, other: Bounds<I2>) -> (r: Bounds<(I, I2)>)
        ensures
            r.offset == (self.offset, other.offset),
            r.extent == (self.extent, other.extent),
    {
        Bounds { offset: (self.offset, other.offset), extent: (self.extent, other.extent) }
    }
}

impl<I: RecordIndex> Bounds<I> {
    /// Check if these bounds contain `other`.
    pub fn contains_bounds(&self, other: &Bounds<I>) -> (r: bool)
        ensures
            r == coords_contain_bounds(
                self.offset.coords(),
                self.extent.coords(),
                other.offset.coords(),
                other.extent.coords(),
            ),
    {
        I::contains_bounds(self, other)
    }

    /// Check if these bounds contain the given index.
    pub fn contains_index(&self, index: I) -> (r: bool)
        ensures
            r == coords_in_bounds(index.coords(), self.offset.coords(), self.extent.coords()),
    {
        index.in_bounds(self)
    }

    /// Expand these bounds — if needed — so that the given index is
    /// contained in the updated bounds.
    pub fn enclose_index(&mut self, index: I)
        requires
            can_enclose(
                old(self).offset.coords(),
                old(self).extent.coords(),
                index.coords(),
                I::extent_limit(),
            ),
        ensures
            enclose_result_ok(
                old(self).offset.coords(),
                old(self).extent.coords(),
                index.coords(),
                final(self).offset.coords(),
                final(self).extent.coords(),
            ),
    {
        I::enclose_index(self, index)
    }

    /// Constructs empty bounds (zero extent along each dimension).
    pub fn new_empty() -> (r: Self)
        ensures
            coords_all_zero(r.offset.coords()),
            coords_all_zero(r.extent.coords()),
    {
        I::empty_bounds()
    }

    /// Constructs bounds large enough to hold only exactly the given index.
    pub fn bounds_for_index(index: I) -> (r: Self)
        ensures
            r.offset == index,
            r.extent == I::unit_extent(),
            coords_all_one(r.extent.coords()),
    {
        I::bounds_for_index(index)
    }
}

/// Containment of regions is sound: an index inside the contained region is
/// inside the container.
pub proof fn lemma_contains_bounds_sound(
    o1: Seq<int>,
    e1: Seq<int>,
    o2: Seq<int>,
    e2: Seq<int>,
    i: Seq<int>,
)
    requires
        o1.len() == i.len(),
        coords_contain_bounds(o1, e1, o2, e2),
        coords_in_bounds(i, o2, e2),
    ensures
        coords_in_bounds(i, o1, e1),
{
}

/// Containment of regions is complete for regions with positive extents:
/// if every coordinate vector of the inner region lies inside the outer
/// region, then the bounds-containment check succeeds.
///
/// The positivity requirement is essential: an *empty* inner region
/// describes no index at all, so the right-hand side holds vacuously even
/// when the regions' offsets are unrelated.
pub proof fn lemma_contains_bounds_complete(o1: Seq<int>, e1: Seq<int>, o2: Seq<int>, e2: Seq<int>)
    requires
        o1.len() == e1.len(),
        o1.len() == o2.len(),
        o1.len() == e2.len(),
        forall|d: int| 0 <= d < o2.len() ==> #[trigger] e2[d] > 0,
        forall|i: Seq<int>|
            i.len() == o1.len() && #[trigger] coords_in_bounds(i, o2, e2) ==> coords_in_bounds(
                i,
                o1,
                e1,
            ),
    ensures
        coords_contain_bounds(o1, e1, o2, e2),
{
    assert forall|d: int| 0 <= d < o1.len() implies o1[d] <= #[trigger] o2[d] && o2[d] + e2[d]
        <= o1[d] + e1[d] by {
        // Witness: the corner of the inner region that is extreme on axis
        // `d` and minimal on every other axis.
        let lo = Seq::new(o1.len(), |k: int| o2[k]);
        assert(coords_in_bounds(lo, o2, e2));
        assert(coords_in_bounds(lo, o1, e1));
        assert(o1[d] <= lo[d]);
        let hi = Seq::new(o1.len(), |k: int| if k == d { o2[k] + e2[k] - 1 } else { o2[k] });
        assert(coords_in_bounds(hi, o2, e2));
        assert(coords_in_bounds(hi, o1, e1));
        assert(hi[d] < o1[d] + e1[d]);
    }
}

/// The characterization of bounds containment: for regions of positive
/// extent, `coords_contain_bounds` holds exactly when every coordinate
/// vector inside the inner region is inside the outer one.
pub proof fn lemma_contains_bounds_iff(o1: Seq<int>, e1: Seq<int>, o2: Seq<int>, e2: Seq<int>)
    requires
        o1.len() == e1.len(),
        o1.len() == o2.len(),
        o1.len() == e2.len(),
        forall|d: int| 0 <= d < o2.len() ==> #[trigger] e2[d] > 0,
    ensures
        coords_contain_bounds(o1, e1, o2, e2) <==> (forall|i: Seq<int>|
            i.len() == o1.len() && #[trigger] coords_in_bounds(i, o2, e2) ==> coords_in_bounds(
                i,
                o1,
                e1,
            )),
{
    if coords_contain_bounds(o1, e1, o2, e2) {
        assert forall|i: Seq<int>|
            i.len() == o1.len() && #[trigger] coords_in_bounds(i, o2, e2) implies coords_in_bounds(
            i,
            o1,
            e1,
        ) by {
            lemma_contains_bounds_sound(o1, e1, o2, e2, i);
        }
    }
    if forall|i: Seq<int>|
        i.len() == o1.len() && #[trigger] coords_in_bounds(i, o2, e2) ==> coords_in_bounds(
            i,
            o1,
            e1,
        ) {
        lemma_contains_bounds_complete(o1, e1, o2, e2);
    }
}

/// The bounds-containment characterization, at the level of [`Bounds`]
/// values: for an inner region of positive extent on every axis,
/// `b1.contains_bounds(&b2)` holds exactly when every coordinate vector
/// that `b2` describes lies inside `b1`.
pub proof fn lemma_contains_bounds_characterization<I: RecordIndex>(b1: Bounds<I>, b2: Bounds<I>)
    requires
        forall|d: int| 0 <= d < I::rank() ==> #[trigger] b2.extent.coords()[d] > 0,
    ensures
        coords_contain_bounds(
            b1.offset.coords(),
            b1.extent.coords(),
            b2.offset.coords(),
            b2.extent.coords(),
        ) <==> (forall|i: Seq<int>|
            i.len() == I::rank() && #[trigger] coords_in_bounds(
                i,
                b2.offset.coords(),
                b2.extent.coords(),
            ) ==> coords_in_bounds(i, b1.offset.coords(), b1.extent.coords())),
{
    b1.offset.lemma_rank();
    b1.extent.lemma_rank();
    b2.offset.lemma_rank();
    b2.extent.lemma_rank();
    lemma_contains_bounds_iff(
        b1.offset.coords(),
        b1.extent.coords(),
        b2.offset.coords(),
        b2.extent.coords(),
    );
}

proof fn lemma_scalar_ccb(co: int, ce: int, bo: int, be: int)
    ensures
        coords_contain_bounds(seq![co], seq![ce], seq![bo], seq![be]) <==> (co <= bo && bo + be
            <= co + ce),
{
    if coords_contain_bounds(seq![co], seq![ce], seq![bo], seq![be]) {
        assert(seq![co][0] <= seq![bo][0] && seq![bo][0] + seq![be][0] <= seq![co][0] + seq![ce][0]);
    }
}

proof fn lemma_scalar_cib(i: int, o: int, e: int)
    ensures
        coords_in_bounds(seq![i], seq![o], seq![e]) <==> (o <= i < o + e),
{
    if coords_in_bounds(seq![i], seq![o], seq![e]) {
        assert(seq![o][0] <= seq![i][0] < seq![o][0] + seq![e][0]);
    }
}

impl RecordIndex for usize {
    open spec fn rank() -> nat {
        1
    }

    open spec fn coords(self) -> Seq<int> {
        seq![self as int]
    }

    open spec fn extent_limit() -> int {
        usize::MAX as int
    }

    open spec fn unit_extent() -> Self {
        1
    }

    proof fn lemma_extent_limit() {
    }

    proof fn lemma_rank(self) {
    }

    proof fn lemma_coords_inj(self, other: Self) {
        if self.coords() == other.coords() {
            assert(self.coords()[0] == other.coords()[0]);
        }
    }

    fn index_eq(&self, other: &Self) -> (r: bool) {
        *self == *other
    }

    fn contains_bounds(container: &Bounds<Self>, bounds: &Bounds<Self>) -> (r: bool) {
        proof {
            lemma_scalar_ccb(
                container.offset as int,
                container.extent as int,
                bounds.offset as int,
                bounds.extent as int,
            );
        }
        if container.offset <= bounds.offset {
            let d = bounds.offset - container.offset;
            bounds.extent <= container.extent && d <= container.extent - bounds.extent
        } else {
            false
        }
    }

    fn in_bounds(&self, bounds: &Bounds<Self>) -> (r: bool) {
        proof {
            lemma_scalar_cib(*self as int, bounds.offset as int, bounds.extent as int);
        }
        bounds.offset <= *self && *self - bounds.offset < bounds.extent
    }

    fn enclose_index(bounds: &mut Bounds<Self>, index: Self) {
        proof {
            assert(old(bounds).offset.coords()[0] == old(bounds).offset as int);
            assert(old(bounds).extent.coords()[0] == old(bounds).extent as int);
            assert(index.coords()[0] == index as int);
            assert(vstd::math::min(old(bounds).offset.coords()[0], index.coords()[0])
                >= vstd::math::min(old(bounds).offset as int, index as int));
        }
        let new_offset = if bounds.offset <= index {
            bounds.offset
        } else {
            index
        };
        let old_span = (bounds.offset - new_offset) + bounds.extent;
        let new_span = (index - new_offset) + 1;
        bounds.offset = new_offset;
        bounds.extent = if old_span <= new_span {
            new_span
        } else {
            old_span
        };
    }

    fn empty_bounds() -> (r: Bounds<Self>) {
        Bounds { offset: 0, extent: 0 }
    }

    fn bounds_for_index(index: Self) -> (r: Bounds<Self>) {
        Bounds { offset: index, extent: 1 }
    }
}

impl RecordIndex for u32 {
    open spec fn rank() -> nat {
        1
    }

    open spec fn coords(self) -> Seq<int> {
        seq![self as int]
    }

    open spec fn extent_limit() -> int {
        u32::MAX as int
    }

    open spec fn unit_extent() -> Self {
        1
    }

    proof fn lemma_extent_limit() {
    }

    proof fn lemma_rank(self) {
    }

    proof fn lemma_coords_inj(self, other: Self) {
        if self.coords() == other.coords() {
            assert(self.coords()[0] == other.coords()[0]);
        }
    }

    fn index_eq(&self, other: &Self) -> (r: bool) {
        *self == *other
    }

    fn contains_bounds(container: &Bounds<Self>, bounds: &Bounds<Self>) -> (r: bool) {
        proof {
            lemma_scalar_ccb(
                container.offset as int,
                container.extent as int,
                bounds.offset as int,
                bounds.extent as int,
            );
        }
        if container.offset <= bounds.offset {
            let d = bounds.offset - container.offset;
            bounds.extent <= container.extent && d <= container.extent - bounds.extent
        } else {
            false
        }
    }

    fn in_bounds(&self, bounds: &Bounds<Self>) -> (r: bool) {
        proof {
            lemma_scalar_cib(*self as int, bounds.offset as int, bounds.extent as int);
        }
        bounds.offset <= *self && *self - bounds.offset < bounds.extent
    }

    fn enclose_index(bounds: &mut Bounds<Self>, index: Self) {
        proof {
            assert(old(bounds).offset.coords()[0] == old(bounds).offset as int);
            assert(old(bounds).extent.coords()[0] == old(bounds).extent as int);
            assert(index.coords()[0] == index as int);
            assert(vstd::math::min(old(bounds).offset.coords()[0], index.coords()[0])
                >= vstd::math::min(old(bounds).offset as int, index as int));
        }
        let new_offset = if bounds.offset <= index {
            bounds.offset
        } else {
            index
        };
        let old_span = (bounds.offset - new_offset) + bounds.extent;
        let new_span = (index - new_offset) + 1;
        bounds.offset = new_offset;
        bounds.extent = if old_span <= new_span {
            new_span
        } else {
            old_span
        };
    }

    fn empty_bounds() -> (r: Bounds<Self>) {
        Bounds { offset: 0, extent: 0 }
    }

    fn bounds_for_index(index: Self) -> (r: Bounds<Self>) {
        Bounds { offset: index, extent: 1 }
    }
}

impl RecordIndex for u64 {
    open spec fn rank() -> nat {
        1
    }

    open spec fn coords(self) -> Seq<int> {
        seq![self as int]
    }

    open spec fn extent_limit() -> int {
        u64::MAX as int
    }

    open spec fn unit_extent() -> Self {
        1
    }

    proof fn lemma_extent_limit() {
    }

    proof fn lemma_rank(self) {
    }

    proof fn lemma_coords_inj(self, other: Self) {
        if self.coords() == other.coords() {
            assert(self.coords()[0] == other.coords()[0]);
        }
    }

    fn index_eq(&self, other: &Self) -> (r: bool) {
        *self == *other
    }

    fn contains_bounds(container: &Bounds<Self>, bounds: &Bounds<Self>) -> (r: bool) {
        proof {
            lemma_scalar_ccb(
                container.offset as int,
                container.extent as int,
                bounds.offset as int,
                bounds.extent as int,
            );
        }
        if container.offset <= bounds.offset {
            let d = bounds.offset - container.offset;
            bounds.extent <= container.extent && d <= container.extent - bounds.extent
        } else {
            false
        }
    }

    fn in_bounds(&self, bounds: &Bounds<Self>) -> (r: bool) {
        proof {
            lemma_scalar_cib(*self as int, bounds.offset as int, bounds.extent as int);
        }
        bounds.offset <= *self && *self - bounds.offset < bounds.extent
    }

    fn enclose_index(bounds: &mut Bounds<Self>, index: Self) {
        proof {
            assert(old(bounds).offset.coords()[0] == old(bounds).offset as int);
            assert(old(bounds).extent.coords()[0] == old(bounds).extent as int);
            assert(index.coords()[0] == index as int);
            assert(vstd::math::min(old(bounds).offset.coords()[0], index.coords()[0])
                >= vstd::math::min(old(bounds).offset as int, index as int));
        }
        let new_offset = if bounds.offset <= index {
            bounds.offset
        } else {
            index
        };
        let old_span = (bounds.offset - new_offset) + bounds.extent;
        let new_span = (index - new_offset) + 1;
        bounds.offset = new_offset;
        bounds.extent = if old_span <= new_span {
            new_span
        } else {
            old_span
        };
    }

    fn empty_bounds() -> (r: Bounds<Self>) {
        Bounds { offset: 0, extent: 0 }
    }

    fn bounds_for_index(index: Self) -> (r: Bounds<Self>) {
        Bounds { offset: index, extent: 1 }
    }
}

/// Splitting a concatenation of coordinate sequences at matching lengths
/// recovers the segments.
pub proof fn lemma_concat_split(a: Seq<int>, b: Seq<int>, c: Seq<int>, d: Seq<int>)
    requires
        a + b == c + d,
        a.len() == c.len(),
        b.len() == d.len(),
    ensures
        a == c,
        b == d,
{
    assert forall|k: int| 0 <= k < a.len() implies a[k] == c[k] by {
        assert((a + b)[k] == a[k]);
        assert((c + d)[k] == c[k]);
    }
    assert(a =~= c);
    assert forall|k: int| 0 <= k < b.len() implies b[k] == d[k] by {
        assert((a + b)[k + a.len()] == b[k]);
        assert((c + d)[k + c.len()] == d[k]);
    }
    assert(b =~= d);
}

/// Membership in a rectangular region distributes over concatenation of the
/// coordinate axes.
pub proof fn lemma_cib_concat(
    i1: Seq<int>,
    o1: Seq<int>,
    e1: Seq<int>,
    i2: Seq<int>,
    o2: Seq<int>,
    e2: Seq<int>,
)
    requires
        o1.len() == i1.len(),
        e1.len() == i1.len(),
        o2.len() == i2.len(),
        e2.len() == i2.len(),
    ensures
        coords_in_bounds(i1 + i2, o1 + o2, e1 + e2) <==> (coords_in_bounds(i1, o1, e1)
            && coords_in_bounds(i2, o2, e2)),
{
    let i = i1 + i2;
    let o = o1 + o2;
    let e = e1 + e2;
    if coords_in_bounds(i, o, e) {
        assert forall|d: int| 0 <= d < i1.len() implies o1[d] <= #[trigger] i1[d] < o1[d]
            + e1[d] by {
            assert(o[d] <= i[d] < o[d] + e[d]);
        }
        assert forall|d: int| 0 <= d < i2.len() implies o2[d] <= #[trigger] i2[d] < o2[d]
            + e2[d] by {
            assert(o[d + i1.len()] <= i[d + i1.len()] < o[d + i1.len()] + e[d + i1.len()]);
        }
    }
    if coords_in_bounds(i1, o1, e1) && coords_in_bounds(i2, o2, e2) {
        assert forall|d: int| 0 <= d < i.len() implies o[d] <= #[trigger] i[d] < o[d] + e[d] by {
            if d < i1.len() {
                assert(o1[d] <= i1[d] < o1[d] + e1[d]);
            } else {
                assert(o2[d - i1.len()] <= i2[d - i1.len()] < o2[d - i1.len()] + e2[d - i1.len()]);
            }
        }
    }
}

/// Containment of rectangular regions distributes over concatenation of the
/// coordinate axes.
pub proof fn lemma_ccb_concat(
    o1: Seq<int>,
    e1: Seq<int>,
    p1: Seq<int>,
    f1: Seq<int>,
    o2: Seq<int>,
    e2: Seq<int>,
    p2: Seq<int>,
    f2: Seq<int>,
)
    requires
        e1.len() == o1.len(),
        p1.len() == o1.len(),
        f1.len() == o1.len(),
        e2.len() == o2.len(),
        p2.len() == o2.len(),
        f2.len() == o2.len(),
    ensures
        coords_contain_bounds(o1 + o2, e1 + e2, p1 + p2, f1 + f2) <==> (coords_contain_bounds(
            o1,
            e1,
            p1,
            f1,
        ) && coords_contain_bounds(o2, e2, p2, f2)),
{
    let o = o1 + o2;
    let e = e1 + e2;
    let p = p1 + p2;
    let f = f1 + f2;
    if coords_contain_bounds(o, e, p, f) {
        assert forall|d: int| 0 <= d < o1.len() implies o1[d] <= #[trigger] p1[d] && p1[d] + f1[d]
            <= o1[d] + e1[d] by {
            assert(o[d] <= p[d] && p[d] + f[d] <= o[d] + e[d]);
        }
        assert forall|d: int| 0 <= d < o2.len() implies o2[d] <= #[trigger] p2[d] && p2[d] + f2[d]
            <= o2[d] + e2[d] by {
            assert(o[d + o1.len()] <= p[d + o1.len()] && p[d + o1.len()] + f[d + o1.len()] <= o[d
                + o1.len()] + e[d + o1.len()]);
        }
    }
    if coords_contain_bounds(o1, e1, p1, f1) && coords_contain_bounds(o2, e2, p2, f2) {
        assert forall|d: int| 0 <= d < o.len() implies o[d] <= #[trigger] p[d] && p[d] + f[d]
            <= o[d] + e[d] by {
            if d < o1.len() {
                assert(o1[d] <= p1[d] && p1[d] + f1[d] <= o1[d] + e1[d]);
            } else {
                assert(o2[d - o1.len()] <= p2[d - o1.len()] && p2[d - o1.len()] + f2[d - o1.len()]
                    <= o2[d - o1.len()] + e2[d - o1.len()]);
            }
        }
    }
}

/// Enclosability distributes over concatenation of the coordinate axes.
pub proof fn lemma_can_enclose_concat(
    o1: Seq<int>,
    e1: Seq<int>,
    i1: Seq<int>,
    o2: Seq<int>,
    e2: Seq<int>,
    i2: Seq<int>,
    limit: int,
)
    requires
        o1.len() == i1.len(),
        e1.len() == i1.len(),
        o2.len() == i2.len(),
        e2.len() == i2.len(),
    ensures
        can_enclose(o1 + o2, e1 + e2, i1 + i2, limit) <==> (can_enclose(o1, e1, i1, limit)
            && can_enclose(o2, e2, i2, limit)),
{
    let o = o1 + o2;
    let e = e1 + e2;
    let i = i1 + i2;
    if can_enclose(o, e, i, limit) {
        assert forall|d: int| 0 <= d < i1.len() implies vstd::math::max(o1[d] + e1[d], i1[d] + 1)
            - #[trigger] vstd::math::min(o1[d], i1[d]) <= limit by {
            assert(vstd::math::max(o[d] + e[d], i[d] + 1) - vstd::math::min(o[d], i[d]) <= limit);
        }
        assert forall|d: int| 0 <= d < i2.len() implies vstd::math::max(o2[d] + e2[d], i2[d] + 1)
            - #[trigger] vstd::math::min(o2[d], i2[d]) <= limit by {
            assert(vstd::math::max(o[d + i1.len()] + e[d + i1.len()], i[d + i1.len()] + 1)
                - vstd::math::min(o[d + i1.len()], i[d + i1.len()]) <= limit);
        }
    }
    if can_enclose(o1, e1, i1, limit) && can_enclose(o2, e2, i2, limit) {
        assert forall|d: int| 0 <= d < i.len() implies vstd::math::max(o[d] + e[d], i[d] + 1)
            - #[trigger] vstd::math::min(o[d], i[d]) <= limit by {
            if d < i1.len() {
                assert(vstd::math::max(o1[d] + e1[d], i1[d] + 1) - vstd::math::min(o1[d], i1[d])
                    <= limit);
            } else {
                assert(vstd::math::max(o2[d - i1.len()] + e2[d - i1.len()], i2[d - i1.len()] + 1)
                    - vstd::math::min(o2[d - i1.len()], i2[d - i1.len()]) <= limit);
            }
        }
    }
}

impl<A: RecordIndex + Copy, B: RecordIndex + Copy> RecordIndex for (A, B) {
    open spec fn rank() -> nat {
        A::rank() + B::rank()
    }

    open spec fn coords(self) -> Seq<int> {
        self.0.coords() + self.1.coords()
    }

    open spec fn extent_limit() -> int {
        vstd::math::min(A::extent_limit(), B::extent_limit())
    }

    open spec fn unit_extent() -> Self {
        (A::unit_extent(), B::unit_extent())
    }

    proof fn lemma_extent_limit() {
        A::lemma_extent_limit();
        B::lemma_extent_limit();
    }

    proof fn lemma_rank(self) {
        self.0.lemma_rank();
        self.1.lemma_rank();
    }

    proof fn lemma_coords_inj(self, other: Self) {
        if self.coords() == other.coords() {
            self.0.lemma_rank();
            self.1.lemma_rank();
            other.0.lemma_rank();
            other.1.lemma_rank();
            lemma_concat_split(
                self.0.coords(),
                self.1.coords(),
                other.0.coords(),
                other.1.coords(),
            );
            self.0.lemma_coords_inj(other.0);
            self.1.lemma_coords_inj(other.1);
        }
    }

    fn index_eq(&self, other: &Self) -> (r: bool) {
        self.0.index_eq(&other.0) && self.1.index_eq(&other.1)
    }

    fn contains_bounds(container: &Bounds<Self>, bounds: &Bounds<Self>) -> (r: bool) {
        let ca = Bounds { offset: container.offset.0, extent: container.extent.0 };
        let cb = Bounds { offset: container.offset.1, extent: container.extent.1 };
        let ba = Bounds { offset: bounds.offset.0, extent: bounds.extent.0 };
        let bb = Bounds { offset: bounds.offset.1, extent: bounds.extent.1 };
        let r = A::contains_bounds(&ca, &ba) && B::contains_bounds(&cb, &bb);
        proof {
            container.offset.0.lemma_rank();
            container.extent.0.lemma_rank();
            bounds.offset.0.lemma_rank();
            bounds.extent.0.lemma_rank();
            container.offset.1.lemma_rank();
            container.extent.1.lemma_rank();
            bounds.offset.1.lemma_rank();
            bounds.extent.1.lemma_rank();
            lemma_ccb_concat(
                container.offset.0.coords(),
                container.extent.0.coords(),
                bounds.offset.0.coords(),
                bounds.extent.0.coords(),
                container.offset.1.coords(),
                container.extent.1.coords(),
                bounds.offset.1.coords(),
                bounds.extent.1.coords(),
            );
        }
        r
    }

    fn in_bounds(&self, bounds: &Bounds<Self>) -> (r: bool) {
        let ba = Bounds { offset: bounds.offset.0, extent: bounds.extent.0 };
        let bb = Bounds { offset: bounds.offset.1, extent: bounds.extent.1 };
        let r = self.0.in_bounds(&ba) && self.1.in_bounds(&bb);
        proof {
            self.0.lemma_rank();
            self.1.lemma_rank();
            bounds.offset.0.lemma_rank();
            bounds.extent.0.lemma_rank();
            bounds.offset.1.lemma_rank();
            bounds.extent.1.lemma_rank();
            lemma_cib_concat(
                self.0.coords(),
                bounds.offset.0.coords(),
                bounds.extent.0.coords(),
                self.1.coords(),
                bounds.offset.1.coords(),
                bounds.extent.1.coords(),
            );
        }
        r
    }

    fn enclose_index(bounds: &mut Bounds<Self>, index: Self) {
        let mut ba = Bounds { offset: bounds.offset.0, extent: bounds.extent.0 };
        let mut bb = Bounds { offset: bounds.offset.1, extent: bounds.extent.1 };
        proof {
            old(bounds).offset.0.lemma_rank();
            old(bounds).offset.1.lemma_rank();
            old(bounds).extent.0.lemma_rank();
            old(bounds).extent.1.lemma_rank();
            index.0.lemma_rank();
            index.1.lemma_rank();
            lemma_can_enclose_concat(
                old(bounds).offset.0.coords(),
                old(bounds).extent.0.coords(),
                index.0.coords(),
                old(bounds).offset.1.coords(),
                old(bounds).extent.1.coords(),
                index.1.coords(),
                Self::extent_limit(),
            );
        }
        A::enclose_index(&mut ba, index.0);
        B::enclose_index(&mut bb, index.1);
        bounds.offset = (ba.offset, bb.offset);
        bounds.extent = (ba.extent, bb.extent);
        proof {
            ba.offset.lemma_rank();
            ba.extent.lemma_rank();
            bb.offset.lemma_rank();
            bb.extent.lemma_rank();
            let oo = old(bounds).offset.coords();
            let oe = old(bounds).extent.coords();
            let ic = index.coords();
            let no = bounds.offset.coords();
            let ne = bounds.extent.coords();
            assert forall|d: int| 0 <= d < ic.len() implies #[trigger] no[d] == vstd::math::min(
                oo[d],
                ic[d],
            ) by {
                if d < A::rank() {
                    assert(no[d] == ba.offset.coords()[d]);
                    assert(oo[d] == old(bounds).offset.0.coords()[d]);
                    assert(ic[d] == index.0.coords()[d]);
                } else {
                    assert(no[d] == bb.offset.coords()[d - A::rank()]);
                    assert(oo[d] == old(bounds).offset.1.coords()[d - A::rank()]);
                    assert(ic[d] == index.1.coords()[d - A::rank()]);
                }
            }
            assert forall|d: int| 0 <= d < ic.len() implies #[trigger] ne[d] == vstd::math::max(
                oo[d] + oe[d],
                ic[d] + 1,
            ) - vstd::math::min(oo[d], ic[d]) by {
                if d < A::rank() {
                    assert(ne[d] == ba.extent.coords()[d]);
                    assert(oe[d] == old(bounds).extent.0.coords()[d]);
                    assert(oo[d] == old(bounds).offset.0.coords()[d]);
                    assert(ic[d] == index.0.coords()[d]);
                } else {
                    assert(ne[d] == bb.extent.coords()[d - A::rank()]);
                    assert(oe[d] == old(bounds).extent.1.coords()[d - A::rank()]);
                    assert(oo[d] == old(bounds).offset.1.coords()[d - A::rank()]);
                    assert(ic[d] == index.1.coords()[d - A::rank()]);
                }
            }
            assert(enclose_result_ok(oo, oe, ic, no, ne));
        }
    }

    fn empty_bounds() -> (r: Bounds<Self>) {
        let a = A::empty_bounds();
        let b = B::empty_bounds();
        let r = Bounds { offset: (a.offset, b.offset), extent: (a.extent, b.extent) };
        proof {
            a.offset.lemma_rank();
            a.extent.lemma_rank();
            b.offset.lemma_rank();
            b.extent.lemma_rank();
            let ro = r.offset.coords();
            let re = r.extent.coords();
            assert forall|d: int| 0 <= d < ro.len() implies #[trigger] ro[d] == 0 by {
                if d < A::rank() {
                    assert(ro[d] == a.offset.coords()[d]);
                } else {
                    assert(ro[d] == b.offset.coords()[d - A::rank()]);
                }
            }
            assert forall|d: int| 0 <= d < re.len() implies #[trigger] re[d] == 0 by {
                if d < A::rank() {
                    assert(re[d] == a.extent.coords()[d]);
                } else {
                    assert(re[d] == b.extent.coords()[d - A::rank()]);
                }
            }
        }
        r
    }

    fn bounds_for_index(index: Self) -> (r: Bounds<Self>) {
        let a = A::bounds_for_index(index.0);
        let b = B::bounds_for_index(index.1);
        let r = Bounds { offset: (a.offset, b.offset), extent: (a.extent, b.extent) };
        proof {
            a.extent.lemma_rank();
            b.extent.lemma_rank();
            index.0.lemma_rank();
            index.1.lemma_rank();
            let re = r.extent.coords();
            assert forall|d: int| 0 <= d < re.len() implies #[trigger] re[d] == 1 by {
                if d < A::rank() {
                    assert(re[d] == a.extent.coords()[d]);
                } else {
                    assert(re[d] == b.extent.coords()[d - A::rank()]);
                }
            }
            assert(r.offset == (index.0, index.1));
        }
        r
    }
}

impl<A: RecordIndex + Copy, B: RecordIndex + Copy, C: RecordIndex + Copy> RecordIndex for (A, B, C) {
    open spec fn rank() -> nat {
        A::rank() + B::rank() + C::rank()
    }

    open spec fn coords(self) -> Seq<int> {
        self.0.coords() + self.1.coords() + self.2.coords()
    }

    open spec fn extent_limit() -> int {
        <((A, B), C)>::extent_limit()
    }

    open spec fn unit_extent() -> Self {
        (A::unit_extent(), B::unit_extent(), C::unit_extent())
    }

    proof fn lemma_extent_limit() {
        <((A, B), C)>::lemma_extent_limit();
    }

    proof fn lemma_rank(self) {
        ((self.0, self.1), self.2).lemma_rank();
    }

    proof fn lemma_coords_inj(self, other: Self) {
        let a = ((self.0, self.1), self.2);
        let b = ((other.0, other.1), other.2);
        a.lemma_coords_inj(b);
    }

    fn index_eq(&self, other: &Self) -> (r: bool) {
        self.0.index_eq(&other.0) && self.1.index_eq(&other.1) && self.2.index_eq(&other.2)
    }

    fn contains_bounds(container: &Bounds<Self>, bounds: &Bounds<Self>) -> (r: bool) {
        let c = Bounds {
            offset: ((container.offset.0, container.offset.1), container.offset.2),
            extent: ((container.extent.0, container.extent.1), container.extent.2),
        };
        let b = Bounds {
            offset: ((bounds.offset.0, bounds.offset.1), bounds.offset.2),
            extent: ((bounds.extent.0, bounds.extent.1), bounds.extent.2),
        };
        <((A, B), C)>::contains_bounds(&c, &b)
    }

    fn in_bounds(&self, bounds: &Bounds<Self>) -> (r: bool) {
        let i = ((self.0, self.1), self.2);
        let b = Bounds {
            offset: ((bounds.offset.0, bounds.offset.1), bounds.offset.2),
            extent: ((bounds.extent.0, bounds.extent.1), bounds.extent.2),
        };
        i.in_bounds(&b)
    }

    fn enclose_index(bounds: &mut Bounds<Self>, index: Self) {
        let mut nested = Bounds {
            offset: ((bounds.offset.0, bounds.offset.1), bounds.offset.2),
            extent: ((bounds.extent.0, bounds.extent.1), bounds.extent.2),
        };
        <((A, B), C)>::enclose_index(&mut nested, ((index.0, index.1), index.2));
        bounds.offset = (nested.offset.0.0, nested.offset.0.1, nested.offset.1);
        bounds.extent = (nested.extent.0.0, nested.extent.0.1, nested.extent.1);
    }

    fn empty_bounds() -> (r: Bounds<Self>) {
        let nested = <((A, B), C)>::empty_bounds();
        Bounds {
            offset: (nested.offset.0.0, nested.offset.0.1, nested.offset.1),
            extent: (nested.extent.0.0, nested.extent.0.1, nested.extent.1),
        }
    }

    fn bounds_for_index(index: Self) -> (r: Bounds<Self>) {
        let nested = <((A, B), C)>::bounds_for_index(((index.0, index.1), index.2));
        Bounds {
            offset: (nested.offset.0.0, nested.offset.0.1, nested.offset.1),
            extent: (nested.extent.0.0, nested.extent.0.1, nested.extent.1),
        }
    }
}

impl<
    A: RecordIndex + Copy,
    B: RecordIndex + Copy,
    C: RecordIndex + Copy,
    D: RecordIndex + Copy,
> RecordIndex for (A, B, C, D) {
    open spec fn rank() -> nat {
        A::rank() + B::rank() + C::rank() + D::rank()
    }

    open spec fn coords(self) -> Seq<int> {
        self.0.coords() + self.1.coords() + self.2.coords() + self.3.coords()
    }

    open spec fn extent_limit() -> int {
        <(((A, B), C), D)>::extent_limit()
    }

    open spec fn unit_extent() -> Self {
        (A::unit_extent(), B::unit_extent(), C::unit_extent(), D::unit_extent())
    }

    proof fn lemma_extent_limit() {
        <(((A, B), C), D)>::lemma_extent_limit();
    }

    proof fn lemma_rank(self) {
        (((self.0, self.1), self.2), self.3).lemma_rank();
    }

    proof fn lemma_coords_inj(self, other: Self) {
        let a = (((self.0, self.1), self.2), self.3);
        let b = (((other.0, other.1), other.2), other.3);
        a.lemma_coords_inj(b);
    }

    fn index_eq(&self, other: &Self) -> (r: bool) {
        self.0.index_eq(&other.0) && self.1.index_eq(&other.1) && self.2.index_eq(&other.2)
            && self.3.index_eq(&other.3)
    }

    fn contains_bounds(container: &Bounds<Self>, bounds: &Bounds<Self>) -> (r: bool) {
        let c = Bounds {
            offset: (((container.offset.0, container.offset.1), container.offset.2), container.offset.3),
            extent: (((container.extent.0, container.extent.1), container.extent.2), container.extent.3),
        };
        let b = Bounds {
            offset: (((bounds.offset.0, bounds.offset.1), bounds.offset.2), bounds.offset.3),
            extent: (((bounds.extent.0, bounds.extent.1), bounds.extent.2), bounds.extent.3),
        };
        <(((A, B), C), D)>::contains_bounds(&c, &b)
    }

    fn in_bounds(&self, bounds: &Bounds<Self>) -> (r: bool) {
        let i = (((self.0, self.1), self.2), self.3);
        let b = Bounds {
            offset: (((bounds.offset.0, bounds.offset.1), bounds.offset.2), bounds.offset.3),
            extent: (((bounds.extent.0, bounds.extent.1), bounds.extent.2), bounds.extent.3),
        };
        i.in_bounds(&b)
    }

    fn enclose_index(bounds: &mut Bounds<Self>, index: Self) {
        let mut nested = Bounds {
            offset: (((bounds.offset.0, bounds.offset.1), bounds.offset.2), bounds.offset.3),
            extent: (((bounds.extent.0, bounds.extent.1), bounds.extent.2), bounds.extent.3),
        };
        <(((A, B), C), D)>::enclose_index(&mut nested, (((index.0, index.1), index.2), index.3));
        bounds.offset = (nested.offset.0.0.0, nested.offset.0.0.1, nested.offset.0.1, nested.offset.1);
        bounds.extent = (nested.extent.0.0.0, nested.extent.0.0.1, nested.extent.0.1, nested.extent.1);
    }

    fn empty_bounds() -> (r: Bounds<Self>) {
        let nested = <(((A, B), C), D)>::empty_bounds();
        Bounds {
            offset: (nested.offset.0.0.0, nested.offset.0.0.1, nested.offset.0.1, nested.offset.1),
            extent: (nested.extent.0.0.0, nested.extent.0.0.1, nested.extent.0.1, nested.extent.1),
        }
    }

    fn bounds_for_index(index: Self) -> (r: Bounds<Self>) {
        let nested = <(((A, B), C), D)>::bounds_for_index((((index.0, index.1), index.2), index.3));
        Bounds {
            offset: (nested.offset.0.0.0, nested.offset.0.0.1, nested.offset.0.1, nested.offset.1),
            extent: (nested.extent.0.0.0, nested.extent.0.0.1, nested.extent.0.1, nested.extent.1),
        }
    }
}

impl<
    A: RecordIndex + Copy,
    B: RecordIndex + Copy,
    C: RecordIndex + Copy,
    D: RecordIndex + Copy,
    E: RecordIndex + Copy,
> RecordIndex for (A, B, C, D, E) {
    open spec fn rank() -> nat {
        A::rank() + B::rank() + C::rank() + D::rank() + E::rank()
    }

    open spec fn coords(self) -> Seq<int> {
        self.0.coords() + self.1.coords() + self.2.coords() + self.3.coords() + self.4.coords()
    }

    open spec fn extent_limit() -> int {
        <((((A, B), C), D), E)>::extent_limit()
    }

    open spec fn unit_extent() -> Self {
        (A::unit_extent(), B::unit_extent(), C::unit_extent(), D::unit_extent(), E::unit_extent())
    }

    proof fn lemma_extent_limit() {
        <((((A, B), C), D), E)>::lemma_extent_limit();
    }

    proof fn lemma_rank(self) {
        ((((self.0, self.1), self.2), self.3), self.4).lemma_rank();
    }

    proof fn lemma_coords_inj(self, other: Self) {
        let a = ((((self.0, self.1), self.2), self.3), self.4);
        let b = ((((other.0, other.1), other.2), other.3), other.4);
        a.lemma_coords_inj(b);
    }

    fn index_eq(&self, other: &Self) -> (r: bool) {
        self.0.index_eq(&other.0) && self.1.index_eq(&other.1) && self.2.index_eq(&other.2)
            && self.3.index_eq(&other.3) && self.4.index_eq(&other.4)
    }

    fn contains_bounds(container: &Bounds<Self>, bounds: &Bounds<Self>) -> (r: bool) {
        let c = Bounds {
            offset: ((((container.offset.0, container.offset.1), container.offset.2), container.offset.3), container.offset.4),
            extent: ((((container.extent.0, container.extent.1), container.extent.2), container.extent.3), container.extent.4),
        };
        let b = Bounds {
            offset: ((((bounds.offset.0, bounds.offset.1), bounds.offset.2), bounds.offset.3), bounds.offset.4),
            extent: ((((bounds.extent.0, bounds.extent.1), bounds.extent.2), bounds.extent.3), bounds.extent.4),
        };
        <((((A, B), C), D), E)>::contains_bounds(&c, &b)
    }

    fn in_bounds(&self, bounds: &Bounds<Self>) -> (r: bool) {
        let i = ((((self.0, self.1), self.2), self.3), self.4);
        let b = Bounds {
            offset: ((((bounds.offset.0, bounds.offset.1), bounds.offset.2), bounds.offset.3), bounds.offset.4),
            extent: ((((bounds.extent.0, bounds.extent.1), bounds.extent.2), bounds.extent.3), bounds.extent.4),
        };
        i.in_bounds(&b)
    }

    fn enclose_index(bounds: &mut Bounds<Self>, index: Self) {
        let mut nested = Bounds {
            offset: ((((bounds.offset.0, bounds.offset.1), bounds.offset.2), bounds.offset.3), bounds.offset.4),
            extent: ((((bounds.extent.0, bounds.extent.1), bounds.extent.2), bounds.extent.3), bounds.extent.4),
        };
        <((((A, B), C), D), E)>::enclose_index(
            &mut nested,
            ((((index.0, index.1), index.2), index.3), index.4),
        );
        bounds.offset = (
            nested.offset.0.0.0.0,
            nested.offset.0.0.0.1,
            nested.offset.0.0.1,
            nested.offset.0.1,
            nested.offset.1,
        );
        bounds.extent = (
            nested.extent.0.0.0.0,
            nested.extent.0.0.0.1,
            nested.extent.0.0.1,
            nested.extent.0.1,
            nested.extent.1,
        );
    }

    fn empty_bounds() -> (r: Bounds<Self>) {
        let nested = <((((A, B), C), D), E)>::empty_bounds();
        Bounds {
            offset: (
                nested.offset.0.0.0.0,
                nested.offset.0.0.0.1,
                nested.offset.0.0.1,
                nested.offset.0.1,
                nested.offset.1,
            ),
            extent: (
                nested.extent.0.0.0.0,
                nested.extent.0.0.0.1,
                nested.extent.0.0.1,
                nested.extent.0.1,
                nested.extent.1,
            ),
        }
    }

    fn bounds_for_index(index: Self) -> (r: Bounds<Self>) {
        let nested = <((((A, B), C), D), E)>::bounds_for_index(
            ((((index.0, index.1), index.2), index.3), index.4),
        );
        Bounds {
            offset: (
                nested.offset.0.0.0.0,
                nested.offset.0.0.0.1,
                nested.offset.0.0.1,
                nested.offset.0.1,
                nested.offset.1,
            ),
            extent: (
                nested.extent.0.0.0.0,
                nested.extent.0.0.0.1,
                nested.extent.0.0.1,
                nested.extent.0.1,
                nested.extent.1,
            ),
        }
    }
}

} // verus!
