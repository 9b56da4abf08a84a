//! The spatial vocabulary of the tree: widths, axes, bounding boxes and
//! cubic partitions of the unsigned space.
use std::ops::Range;
use vstd::prelude::*;

use crate::clamp::{Clamped, ClampedRange};
use crate::math::{LowerBound, Mask, UPoint3, UVector3, UpperBound};

verus! {

/// Defines the bounds for `LogWidth` values.
#[derive(Clone, Copy)]
pub struct LogWidthRange;

impl ClampedRange for LogWidthRange {
    open spec fn upper() -> u8 {
        31
    }

    open spec fn lower() -> u8 {
        4
    }

    fn max_value() -> (r: u8) {
        31
    }

    fn min_value() -> (r: u8) {
        4
    }

    proof fn lemma_range_nonempty() {
    }
}

/// Logarithmic width: a width `x` exponentiates as `2ˣ`. Clamped to `[4, 31]`.
pub type LogWidth = Clamped<LogWidthRange>;

/// The smallest logarithmic width.
pub open spec fn min_width() -> u8 {
    4
}

/// The largest logarithmic width.
pub open spec fn max_width() -> u8 {
    31
}

/// `2ʷ` as a scalar of the tree space.
pub open spec fn exp_spec(w: u8) -> u32 {
    1u32 << (w as u32)
}

/// The mask that clears the low `w` bits.
pub open spec fn high_mask(w: u8) -> u32 {
    !0u32 << (w as u32)
}

/// `v` has its low `w` bits clear, i.e. it is a multiple of `2ʷ`.
pub open spec fn aligned(v: u32, w: u8) -> bool {
    v & high_mask(w) == v
}

/// Bit `w` of `v`.
pub open spec fn bit(v: u32, w: u8) -> u32 {
    (v >> (w as u32)) & 1u32
}

impl Clamped<LogWidthRange> {
    /// Reference width of cubes.
    pub fn unit() -> (r: LogWidth)
        ensures
            r.inner() == 8,
    {
        LogWidth::new(8)
    }

    /// Exponentiates the width: `2ʷ`.
    pub fn exp(&self) -> (r: u32)
        ensures
            r == exp_spec(self.inner()),
            1 <= r <= 0x8000_0000,
            min_width() <= self.inner() <= max_width(),
    {
        let w = self.to_inner();
        proof {
            lemma_exp_positive(w);
        }
        1u32 << (w as u32)
    }
}

/// An axis of the tree space.
#[derive(Clone, Copy, Debug, PartialEq, Eq, Structural)]
pub enum Axis {
    X,
    Y,
    Z,
}

impl Axis {
    /// The index of the axis: 0, 1 or 2.
    pub open spec fn index_spec(self) -> usize {
        match self {
            Axis::X => 0,
            Axis::Y => 1,
            Axis::Z => 2,
        }
    }

    /// Gets the index of the axis.
    pub fn index(&self) -> (r: usize)
        ensures
            r == self.index_spec(),
    {
        match self {
            Axis::X => 0,
            Axis::Y => 1,
            Axis::Z => 2,
        }
    }

    /// Gets a `Range` over axes as indices.
    pub fn range() -> (r: Range<usize>)
        ensures
            r.start == 0,
            r.end == 3,
    {
        0..3
    }

    /// The axis with the given index.
    pub fn from_index(index: usize) -> (r: Axis)
        requires
            index < 3,
        ensures
            r.index_spec() == index,
    {
        if index == 0 {
            Axis::X
        } else if index == 1 {
            Axis::Y
        } else {
            Axis::Z
        }
    }
}

/// A direction along an `Axis`.
#[derive(Clone, Copy, Debug, PartialEq, Eq, Structural)]
pub enum Direction {
    Positive,
    Negative,
}

/// An orientation (a face of a cube and the direction it deforms in).
#[derive(Clone, Copy, Debug, PartialEq, Eq, Structural)]
pub enum Orientation {
    Left,
    Right,
    Top,
    Bottom,
    Front,
    Back,
}

impl Orientation {
    /// Gets the `Axis` associated with the `Orientation`.
    pub fn axis(&self) -> (r: Axis)
        ensures
            r == (match self {
                Orientation::Left | Orientation::Right => Axis::X,
                Orientation::Top | Orientation::Bottom => Axis::Y,
                Orientation::Front | Orientation::Back => Axis::Z,
            }),
    {
        match self {
            Orientation::Left | Orientation::Right => Axis::X,
            Orientation::Top | Orientation::Bottom => Axis::Y,
            Orientation::Front | Orientation::Back => Axis::Z,
        }
    }

    /// Gets the `Direction` associated with the `Orientation`.
    pub fn direction(&self) -> (r: Direction)
        ensures
            r == (match self {
                Orientation::Left | Orientation::Bottom | Orientation::Back => Direction::Positive,
                Orientation::Right | Orientation::Top | Orientation::Front => Direction::Negative,
            }),
    {
        match self {
            Orientation::Left | Orientation::Bottom | Orientation::Back => Direction::Positive,
            Orientation::Right | Orientation::Top | Orientation::Front => Direction::Negative,
        }
    }
}

/// Shape or primitive that can test for intersection with another one.
pub trait Intersects<T> {
    /// The test is defined (its arithmetic does not overflow).
    spec fn can_intersect(&self, other: &T) -> bool;

    fn intersects(&self, other: &T) -> bool
        requires
            self.can_intersect(other),
    ;
}

/// Axis-aligned bounding box, as an origin and an (inclusive) extent.
#[derive(Clone, Copy, Debug, PartialEq, Eq, Structural)]
pub struct AABB {
    pub origin: UPoint3,
    pub extent: UVector3,
}

/// The far corner of a box does not leave the space.
pub open spec fn aabb_fits(b: AABB) -> bool {
    &&& b.origin.x + b.extent.x <= u32::MAX
    &&& b.origin.y + b.extent.y <= u32::MAX
    &&& b.origin.z + b.extent.z <= u32::MAX
}

/// The far corner of a box.
pub open spec fn aabb_endpoint(b: AABB) -> UPoint3 {
    UPoint3 {
        x: (b.origin.x + b.extent.x) as u32,
        y: (b.origin.y + b.extent.y) as u32,
        z: (b.origin.z + b.extent.z) as u32,
    }
}

/// Two boxes overlap or touch along one axis.
pub open spec fn overlaps_on(a: AABB, b: AABB, axis: int) -> bool {
    &&& a.origin.coord(axis) + a.extent.coord(axis) >= b.origin.coord(axis)
    &&& a.origin.coord(axis) <= b.origin.coord(axis) + b.extent.coord(axis)
}

/// Two boxes overlap or touch.
pub open spec fn aabbs_intersect(a: AABB, b: AABB) -> bool {
    overlaps_on(a, b, 0) && overlaps_on(a, b, 1) && overlaps_on(a, b, 2)
}

/// A point lies in a box along one axis.
pub open spec fn contains_on(a: AABB, p: UPoint3, axis: int) -> bool {
    a.origin.coord(axis) <= p.coord(axis) <= a.origin.coord(axis) + a.extent.coord(axis)
}

/// A point lies in a box (boundary included).
pub open spec fn aabb_contains(a: AABB, p: UPoint3) -> bool {
    contains_on(a, p, 0) && contains_on(a, p, 1) && contains_on(a, p, 2)
}

/// `r` is the box from the lower bound of the origins of `a` and `b` to the
/// upper bound of their far corners, along each axis.
pub open spec fn is_union(a: AABB, b: AABB, r: AABB) -> bool {
    forall|axis: int|
        0 <= axis < 3 ==> {
            &&& #[trigger] r.origin.coord(axis) == crate::math::min_u32(
                a.origin.coord(axis),
                b.origin.coord(axis),
            )
            &&& r.origin.coord(axis) + r.extent.coord(axis) == crate::math::max_u32(
                (a.origin.coord(axis) + a.extent.coord(axis)) as u32,
                (b.origin.coord(axis) + b.extent.coord(axis)) as u32,
            )
        }
}

/// The union of two boxes holds every point of either box.
pub proof fn lemma_union_contains(a: AABB, b: AABB, r: AABB, p: UPoint3)
    requires
        aabb_fits(a),
        aabb_fits(b),
        is_union(a, b, r),
        aabb_contains(a, p) || aabb_contains(b, p),
    ensures
        aabb_contains(r, p),
{
    assert(r.origin.coord(0) == crate::math::min_u32(a.origin.coord(0), b.origin.coord(0)));
    assert(r.origin.coord(1) == crate::math::min_u32(a.origin.coord(1), b.origin.coord(1)));
    assert(r.origin.coord(2) == crate::math::min_u32(a.origin.coord(2), b.origin.coord(2)));
}

impl AABB {
    pub fn new(origin: UPoint3, extent: UVector3) -> (r: Self)
        ensures
            r == (AABB { origin, extent }),
    {
        AABB { origin, extent }
    }

    /// The union of two boxes: the box spanned by their lower and upper
    /// bounds (through `LowerBound` and `UpperBound`), component by component.
    pub fn union(&self, other: &Self) -> (r: Self)
        requires
            aabb_fits(*self),
            aabb_fits(*other),
        ensures
            is_union(*self, *other, r),
            aabb_fits(r),
    {
        let start = self.origin.lower_bound(&other.origin);
        let end = self.endpoint().upper_bound(&other.endpoint());
        AABB::new(start, end.sub_point(&start))
    }

    /// Gets the midpoint (center) of the box.
    pub fn midpoint(&self) -> (r: UPoint3)
        requires
            aabb_fits(*self),
        ensures
            r.x == self.origin.x + self.extent.x / 2,
            r.y == self.origin.y + self.extent.y / 2,
            r.z == self.origin.z + self.extent.z / 2,
    {
        let half = UVector3::new(self.extent.x / 2, self.extent.y / 2, self.extent.z / 2);
        self.origin.add_vector(&half)
    }

    /// Gets the absolute endpoint (far corner) of the box.
    pub fn endpoint(&self) -> (r: UPoint3)
        requires
            aabb_fits(*self),
        ensures
            r.x == self.origin.x + self.extent.x,
            r.y == self.origin.y + self.extent.y,
            r.z == self.origin.z + self.extent.z,
    {
        self.origin.add_vector(&self.extent)
    }
}

impl Intersects<AABB> for AABB {
    open spec fn can_intersect(&self, other: &AABB) -> bool {
        aabb_fits(*self) && aabb_fits(*other)
    }

    /// Two boxes intersect when they overlap or touch along every axis.
    fn intersects(&self, aabb: &AABB) -> (r: bool)
        ensures
            r == aabbs_intersect(*self, *aabb),
    {
        let mut axis: usize = 0;
        while axis < 3
            invariant
                axis <= 3,
                aabb_fits(*self),
                aabb_fits(*aabb),
                forall|a: int| 0 <= a < axis ==> overlaps_on(*self, *aabb, a),
            decreases 3 - axis,
        {
            if self.origin.get(axis) + self.extent.get(axis) < aabb.origin.get(axis) {
                return false;
            }
            if self.origin.get(axis) > aabb.origin.get(axis) + aabb.extent.get(axis) {
                return false;
            }
            axis = axis + 1;
        }
        true
    }
}

impl Intersects<UPoint3> for AABB {
    open spec fn can_intersect(&self, other: &UPoint3) -> bool {
        aabb_fits(*self)
    }

    /// A point intersects a box when it lies in it (boundary included).
    fn intersects(&self, point: &UPoint3) -> (r: bool)
        ensures
            r == aabb_contains(*self, *point),
    {
        let mut axis: usize = 0;
        while axis < 3
            invariant
                axis <= 3,
                aabb_fits(*self),
                forall|a: int| 0 <= a < axis ==> contains_on(*self, *point, a),
            decreases 3 - axis,
        {
            if self.origin.get(axis) + self.extent.get(axis) < point.get(axis) {
                return false;
            }
            if self.origin.get(axis) > point.get(axis) {
                return false;
            }
            axis = axis + 1;
        }
        true
    }
}

/// A cubic spatial partition: an origin aligned to its width.
#[derive(Clone, Copy)]
pub struct Partition {
    origin: UPoint3,
    width: LogWidth,
}

/// The origin of a point's partition of width `w`.
pub open spec fn mask_point(p: UPoint3, w: u8) -> UPoint3 {
    UPoint3 { x: p.x & high_mask(w), y: p.y & high_mask(w), z: p.z & high_mask(w) }
}

/// Every coordinate of a point is aligned to `w`.
pub open spec fn point_aligned(p: UPoint3, w: u8) -> bool {
    aligned(p.x, w) && aligned(p.y, w) && aligned(p.z, w)
}

/// `2ʷ - 1`: the extent of a cube of width `w` along each axis.
pub open spec fn side_extent(w: u8) -> u32 {
    (exp_spec(w) - 1) as u32
}

/// The offset of a partition's midpoint from its origin: `2ʷ⁻¹`, where the
/// width less one is clamped to the minimum width.
pub open spec fn half_side(w: u8) -> u32 {
    if w > min_width() {
        exp_spec((w - 1) as u8)
    } else {
        exp_spec(min_width())
    }
}

/// The vector from a partition's origin to the origin of its sub-partition
/// at `index`, where the sub-partitions have width `w`.
pub open spec fn vector_spec(index: u32, w: u8) -> UVector3 {
    UVector3 {
        x: (bit(index, 0) * exp_spec(w)) as u32,
        y: (bit(index, 1) * exp_spec(w)) as u32,
        z: (bit(index, 2) * exp_spec(w)) as u32,
    }
}

/// The point moved by a vector.
pub open spec fn translate(p: UPoint3, v: UVector3) -> UPoint3 {
    UPoint3 { x: (p.x + v.x) as u32, y: (p.y + v.y) as u32, z: (p.z + v.z) as u32 }
}

/// The bounding box of a cube with the given origin and width.
pub open spec fn cube_aabb(origin: UPoint3, w: u8) -> AABB {
    AABB {
        origin,
        extent: UVector3 { x: side_extent(w), y: side_extent(w), z: side_extent(w) },
    }
}

impl Partition {
    #[verifier::type_invariant]
    spec fn origin_aligned(self) -> bool {
        &&& min_width() <= self.width.inner() <= max_width()
        &&& point_aligned(self.origin, self.width.inner())
    }

    /// The origin of the partition.
    pub closed spec fn origin_spec(self) -> UPoint3 {
        self.origin
    }

    /// The logarithmic width of the partition.
    pub closed spec fn width_spec(self) -> u8 {
        self.width.inner()
    }

    /// The bounding box of the partition.
    pub open spec fn aabb_spec(self) -> AABB {
        cube_aabb(self.origin_spec(), self.width_spec())
    }

    /// The sub-partition at `index`, of width one less.
    pub closed spec fn child(self, index: int) -> Partition {
        let w = (self.width.inner() - 1) as u8;
        Partition {
            origin: translate(self.origin, vector_spec(index as u32, w)),
            width: LogWidth::from_inner(w),
        }
    }

    /// The partition of the given width whose origin is the masked point.
    pub closed spec fn at_point_spec(point: UPoint3, w: u8) -> Partition {
        Partition { origin: mask_point(point, w), width: LogWidth::from_inner(w) }
    }

    /// The sub-partition's origin and width.
    pub proof fn lemma_child(self, index: int)
        requires
            self.width_spec() >= 1,
            0 <= index < 8,
        ensures
            self.child(index).width_spec() == self.width_spec() - 1,
            self.child(index).origin_spec() == translate(
                self.origin_spec(),
                vector_spec(index as u32, (self.width_spec() - 1) as u8),
            ),
    {
        LogWidth::lemma_inner_of((self.width.inner() - 1) as u8);
    }

    /// A sub-partition is one narrower.
    pub broadcast proof fn lemma_child_width(self, index: int)
        requires
            self.width_spec() >= 1,
        ensures
            #[trigger] self.child(index).width_spec() == self.width_spec() - 1,
    {
        LogWidth::lemma_inner_of((self.width.inner() - 1) as u8);
    }

    /// The origin and width of `at_point_spec`.
    pub proof fn lemma_at_point_spec(point: UPoint3, w: u8)
        ensures
            Self::at_point_spec(point, w).width_spec() == w,
            Self::at_point_spec(point, w).origin_spec() == mask_point(point, w),
    {
        LogWidth::lemma_inner_of(w);
    }

    /// Well-formedness that every partition has.
    pub open spec fn valid(self) -> bool {
        &&& min_width() <= self.width_spec() <= max_width()
        &&& point_aligned(self.origin_spec(), self.width_spec())
        &&& aabb_fits(self.aabb_spec())
    }

    /// Every partition is valid.
    pub fn check_valid(&self)
        ensures
            self.valid(),
    {
        proof {
            use_type_invariant(self);
            lemma_aligned_fits(self.origin.x, self.width.inner());
            lemma_aligned_fits(self.origin.y, self.width.inner());
            lemma_aligned_fits(self.origin.z, self.width.inner());
        }
    }

    /// Constructs the partition of the given width that contains `point`.
    pub fn at_point(point: &UPoint3, width: LogWidth) -> (r: Self)
        ensures
            r.origin_spec() == mask_point(*point, width.inner()),
            r.width_spec() == width.inner(),
            r == Self::at_point_spec(*point, width.inner()),
            r.valid(),
            aabb_contains(r.aabb_spec(), *point),
    {
        proof {
            width.lemma_from_inner();
        }
        let w = width.to_inner();
        let mask = !0u32 << (w as u32);
        let origin = point.mask(mask);
        proof {
            lemma_mask_aligned(point.x, w);
            lemma_mask_aligned(point.y, w);
            lemma_mask_aligned(point.z, w);
            lemma_aligned_fits(origin.x, w);
            lemma_aligned_fits(origin.y, w);
            lemma_aligned_fits(origin.z, w);
        }
        Partition { origin, width }
    }

    /// Constructs the sub-partition at the given index. Returns `None` if the
    /// minimum width has been reached.
    pub fn at_index(&self, index: usize) -> (r: Option<Self>)
        requires
            index < 8,
        ensures
            r is None <==> self.width_spec() == min_width(),
            r is Some ==> r->0.width_spec() == self.width_spec() - 1,
            r is Some ==> r->0.origin_spec() == translate(
                self.origin_spec(),
                vector_spec(index as u32, (self.width_spec() - 1) as u8),
            ),
            r is Some ==> r->0.valid(),
            r is Some ==> r->0 == self.child(index as int),
    {
        proof {
            use_type_invariant(self);
        }
        if self.is_min_width() {
            None
        } else {
            let width = self.width.sub_inner(1);
            let w = width.to_inner();
            let v = vector_at_index(index, width);
            proof {
                lemma_bit_le_one(index as u32, 0);
                lemma_bit_le_one(index as u32, 1);
                lemma_bit_le_one(index as u32, 2);
                lemma_child_aligned(self.origin.x, w, bit(index as u32, 0));
                lemma_child_aligned(self.origin.y, w, bit(index as u32, 1));
                lemma_child_aligned(self.origin.z, w, bit(index as u32, 2));
            }
            let origin = self.origin.add_vector(&v);
            let r = Partition { origin, width };
            proof {
                width.lemma_from_inner();
            }
            r.check_valid();
            Some(r)
        }
    }

    /// Gets the origin of the partition.
    pub fn origin(&self) -> (r: &UPoint3)
        ensures
            *r == self.origin_spec(),
    {
        &self.origin
    }

    /// Gets the width of the partition.
    pub fn width(&self) -> (r: LogWidth)
        ensures
            r.inner() == self.width_spec(),
            self.valid(),
    {
        self.check_valid();
        self.width
    }

    /// Gets the midpoint of the partition.
    pub fn midpoint(&self) -> (r: UPoint3)
        requires
            self.origin_spec().x + half_side(self.width_spec()) <= u32::MAX,
            self.origin_spec().y + half_side(self.width_spec()) <= u32::MAX,
            self.origin_spec().z + half_side(self.width_spec()) <= u32::MAX,
        ensures
            r.x == self.origin_spec().x + half_side(self.width_spec()),
            r.y == self.origin_spec().y + half_side(self.width_spec()),
            r.z == self.origin_spec().z + half_side(self.width_spec()),
    {
        proof {
            use_type_invariant(self);
        }
        let m = self.width.sub_inner(1).exp();
        self.origin.add_vector(&UVector3::new(m, m, m))
    }

    /// Gets the extent of the partition: `2ʷ - 1` along every axis.
    pub fn extent(&self) -> (r: UVector3)
        ensures
            r == self.aabb_spec().extent,
    {
        let e = self.width.exp();
        proof {
            lemma_exp_positive(self.width.inner());
        }
        UVector3::new(e - 1, e - 1, e - 1)
    }

    /// Gets the bounding box of the partition.
    pub fn aabb(&self) -> (r: AABB)
        ensures
            r == self.aabb_spec(),
            aabb_fits(r),
    {
        self.check_valid();
        AABB::new(self.origin, self.extent())
    }

    /// Returns `true` if the partition has the minimum possible width.
    pub fn is_min_width(&self) -> (r: bool)
        ensures
            r == (self.width_spec() == min_width()),
    {
        self.width.to_inner() == 4
    }
}

/// Masking a partition's origin to its own width leaves it unchanged.
pub proof fn lemma_aligned_mask(p: Partition)
    requires
        p.valid(),
    ensures
        mask_point(p.origin_spec(), p.width_spec()) == p.origin_spec(),
{
}

/// A spatial (cubic) element in a tree.
pub trait Spatial {
    /// The partition of the element.
    spec fn spatial_partition(&self) -> Partition;

    /// Gets the partition of the element.
    fn partition(&self) -> (r: &Partition)
        ensures
            *r == self.spatial_partition(),
    ;

    /// Gets the depth of the element in its tree.
    fn depth(&self) -> u8;

    /// Gets the bounding box of the element.
    fn aabb(&self) -> (r: AABB)
        ensures
            r == self.spatial_partition().aabb_spec(),
    {
        self.partition().aabb()
    }
}

/// The subdivision index at width `w` of a point: bits `w` of its
/// coordinates, `x` lowest.
pub open spec fn index_spec(p: UPoint3, w: u8) -> int {
    bit(p.x, w) + 2 * bit(p.y, w) + 4 * bit(p.z, w)
}

/// Gets the subdivision index in a tree for a given point at the given width.
pub fn index_at_point(point: &UPoint3, width: LogWidth) -> (r: usize)
    ensures
        r == index_spec(*point, width.inner()),
        r < 8,
{
    let w = width.to_inner() as u32;
    let a = (point.x >> w) & 1u32;
    let b = (point.y >> w) & 1u32;
    let c = (point.z >> w) & 1u32;
    proof {
        lemma_bit_le_one(point.x, w as u8);
        lemma_bit_le_one(point.y, w as u8);
        lemma_bit_le_one(point.z, w as u8);
        lemma_or_is_sum(a, b, c);
    }
    (a | (b << 1u32) | (c << 2u32)) as usize
}

/// Gets a vector to the origin of a subdivision at a given index and width.
pub fn vector_at_index(index: usize, width: LogWidth) -> (r: UVector3)
    requires
        index < 8,
    ensures
        r == vector_spec(index as u32, width.inner()),
{
    let index = index as u32;
    let e = width.exp();
    proof {
        lemma_bit_le_one(index, 0);
        lemma_bit_le_one(index, 1);
        lemma_bit_le_one(index, 2);
        lemma_exp_positive(width.inner());
    }
    let a = (index >> 0u32) & 1u32;
    let b = (index >> 1u32) & 1u32;
    let c = (index >> 2u32) & 1u32;
    proof {
        lemma_bit_times_exp(a, width.inner());
        lemma_bit_times_exp(b, width.inner());
        lemma_bit_times_exp(c, width.inner());
    }
    UVector3::new(a * e, b * e, c * e)
}

pub proof fn lemma_exp_positive(w: u8)
    requires
        w <= 31,
    ensures
        1 <= exp_spec(w) <= 0x8000_0000,
{
    let v = w as u32;
    assert(1 <= (1u32 << v) <= 0x8000_0000u32) by (bit_vector)
        requires
            v <= 31,
    ;
}

proof fn lemma_bit_times_exp(b: u32, w: u8)
    requires
        b <= 1,
        w <= 31,
    ensures
        b * exp_spec(w) <= exp_spec(w),
{
    lemma_exp_positive(w);
    if b == 0 {
    } else {
    }
}

pub proof fn lemma_bit_le_one(v: u32, w: u8)
    requires
        w <= 31,
    ensures
        bit(v, w) <= 1,
{
    let s = w as u32;
    assert(((v >> s) & 1u32) <= 1u32) by (bit_vector);
}

proof fn lemma_or_is_sum(a: u32, b: u32, c: u32)
    requires
        a <= 1,
        b <= 1,
        c <= 1,
    ensures
        (a | (b << 1u32) | (c << 2u32)) == a + 2 * b + 4 * c,
        a + 2 * b + 4 * c < 8,
{
    assert((a | (b << 1u32) | (c << 2u32)) == a + 2 * b + 4 * c) by (bit_vector)
        requires
            a <= 1,
            b <= 1,
            c <= 1,
    ;
}

/// Masking a value to a width aligns it and keeps it within one cube of the
/// value it masks.
pub proof fn lemma_mask_aligned(x: u32, w: u8)
    requires
        w <= 31,
    ensures
        aligned(x & high_mask(w), w),
        (x & high_mask(w)) <= x,
        x <= (x & high_mask(w)) + side_extent(w),
{
    let s = w as u32;
    assert(((x & (!0u32 << s)) & (!0u32 << s)) == (x & (!0u32 << s))) by (bit_vector);
    assert((x & (!0u32 << s)) <= x) by (bit_vector);
    assert(x - (x & (!0u32 << s)) <= (1u32 << s) - 1u32) by (bit_vector)
        requires
            s <= 31,
    ;
}

/// An aligned cube does not leave the space.
pub proof fn lemma_aligned_fits(v: u32, w: u8)
    requires
        w <= 31,
        aligned(v, w),
    ensures
        v + side_extent(w) <= u32::MAX,
{
    lemma_exp_positive(w);
    let s = w as u32;
    assert(v + ((1u32 << s) - 1u32) <= 0xffff_ffffu32) by (bit_vector)
        requires
            s <= 31,
            (v & (!0u32 << s)) == v,
    ;
}

/// The origin of a sub-cube is aligned to the sub-cube's width.
proof fn lemma_child_aligned(o: u32, w: u8, b: u32)
    requires
        4 <= w <= 30,
        aligned(o, (w + 1) as u8),
        b <= 1,
    ensures
        o + b * exp_spec(w) <= u32::MAX,
        aligned((o + b * exp_spec(w)) as u32, w),
{
    let s = w as u32;
    let t = (w + 1) as u8 as u32;
    assert(o + (1u32 << s) <= 0xffff_ffffu32) by (bit_vector)
        requires
            s <= 30,
            t == s + 1,
            (o & (!0u32 << t)) == o,
    ;
    assert((o & (!0u32 << s)) == o) by (bit_vector)
        requires
            s <= 30,
            t == s + 1,
            (o & (!0u32 << t)) == o,
    ;
    assert((((o + (1u32 << s)) as u32) & (!0u32 << s)) == o + (1u32 << s)) by (bit_vector)
        requires
            s <= 30,
            t == s + 1,
            (o & (!0u32 << t)) == o,
    ;
    if b == 0 {
        assert(o + b * exp_spec(w) == o);
    } else {
        assert(o + b * exp_spec(w) == o + exp_spec(w));
    }
}

/// The bit of a one-bit-per-axis index along each axis.
proof fn lemma_index_bits(a: u32, b: u32, c: u32)
    requires
        a <= 1,
        b <= 1,
        c <= 1,
    ensures
        bit((a + 2 * b + 4 * c) as u32, 0) == a,
        bit((a + 2 * b + 4 * c) as u32, 1) == b,
        bit((a + 2 * b + 4 * c) as u32, 2) == c,
{
    let i = (a + 2 * b + 4 * c) as u32;
    assert(((i >> 0u32) & 1u32) == a && ((i >> 1u32) & 1u32) == b && ((i >> 2u32) & 1u32) == c)
        by (bit_vector)
        requires
            a <= 1,
            b <= 1,
            c <= 1,
            i == a + 2 * b + 4 * c,
    ;
}

/// One coordinate of the point-location law.
proof fn lemma_locate_coord(x: u32, w: u8)
    requires
        5 <= w <= 31,
    ensures
        (x & high_mask(w)) + bit(x, (w - 1) as u8) * exp_spec((w - 1) as u8) == x & high_mask(
            (w - 1) as u8,
        ),
{
    let s = w as u32;
    let t = (w - 1) as u8 as u32;
    lemma_bit_le_one(x, (w - 1) as u8);
    assert((x & (!0u32 << s)) + ((x >> t) & 1u32) * (1u32 << t) == (x & (!0u32 << t)))
        by (bit_vector)
        requires
            5 <= s <= 31,
            t == s - 1,
    ;
}

/// One coordinate of the subdivision-index law.
proof fn lemma_child_bit(o: u32, b: u32, w: u8)
    requires
        4 <= w <= 30,
        aligned(o, (w + 1) as u8),
        b <= 1,
    ensures
        bit((o + b * exp_spec(w)) as u32, w) == b,
{
    let s = w as u32;
    let t = (w + 1) as u8 as u32;
    lemma_child_aligned(o, w, b);
    assert((((o + b * (1u32 << s)) as u32 >> s) & 1u32) == b) by (bit_vector)
        requires
            4 <= s <= 30,
            t == s + 1,
            (o & (!0u32 << t)) == o,
            b <= 1,
    ;
}

/// Masking to a smaller width stays within the cube of the larger width.
pub proof fn lemma_mask_nested(x: u32, cw: u8, w: u8)
    requires
        cw <= w <= 31,
    ensures
        (x & high_mask(w)) <= (x & high_mask(cw)),
        (x & high_mask(cw)) + side_extent(cw) <= (x & high_mask(w)) + side_extent(w),
{
    let s = cw as u32;
    let t = w as u32;
    lemma_exp_positive(cw);
    lemma_exp_positive(w);
    assert((x & (!0u32 << t)) <= (x & (!0u32 << s))) by (bit_vector)
        requires
            s <= t <= 31,
    ;
    assert((x & (!0u32 << s)) + ((1u32 << s) - 1u32) <= (x & (!0u32 << t)) + ((1u32 << t) - 1u32))
        by (bit_vector)
        requires
            s <= t <= 31,
    ;
}

/// A value within the cube of width `w` that starts at the aligned `o` masks
/// to `o`.
pub proof fn lemma_mask_within(x: u32, o: u32, w: u8)
    requires
        w <= 31,
        aligned(o, w),
        o <= x <= o + side_extent(w),
    ensures
        x & high_mask(w) == o,
{
    let t = w as u32;
    lemma_exp_positive(w);
    assert((x & (!0u32 << t)) == o) by (bit_vector)
        requires
            t <= 31,
            (o & (!0u32 << t)) == o,
            o <= x,
            x <= o + ((1u32 << t) - 1u32),
    ;
}

impl Partition {
    /// A partition is the one `at_point_spec` gives for any point that masks
    /// to its origin at its width.
    pub proof fn lemma_is_at_point(self, q: UPoint3)
        requires
            mask_point(q, self.width_spec()) == self.origin_spec(),
        ensures
            self == Partition::at_point_spec(q, self.width_spec()),
    {
        self.width.lemma_from_inner();
    }
}

/// Locating a point: in the partition of width `w` that contains a point,
/// the sub-partition whose index is the point's subdivision index at width
/// `w - 1` is the partition of width `w - 1` that contains the point.
pub proof fn lemma_point_location(p: UPoint3, w: u8)
    requires
        5 <= w <= 31,
    ensures
        0 <= index_spec(p, (w - 1) as u8) < 8,
        translate(
            mask_point(p, w),
            vector_spec(index_spec(p, (w - 1) as u8) as u32, (w - 1) as u8),
        ) == mask_point(p, (w - 1) as u8),
{
    let v = (w - 1) as u8;
    lemma_bit_le_one(p.x, v);
    lemma_bit_le_one(p.y, v);
    lemma_bit_le_one(p.z, v);
    lemma_index_bits(bit(p.x, v), bit(p.y, v), bit(p.z, v));
    lemma_locate_coord(p.x, w);
    lemma_locate_coord(p.y, w);
    lemma_locate_coord(p.z, w);
}

/// Subdividing and locating agree: every point of the sub-cube at index `i`
/// of an aligned cube of width `w + 1` has subdivision index `i` at width `w`
/// (shown here of the sub-cube's origin).
pub proof fn lemma_subdivision_index(o: UPoint3, i: u32, w: u8)
    requires
        4 <= w <= 30,
        point_aligned(o, (w + 1) as u8),
        i < 8,
    ensures
        index_spec(translate(o, vector_spec(i, w)), w) == i,
{
    lemma_bit_le_one(i, 0);
    lemma_bit_le_one(i, 1);
    lemma_bit_le_one(i, 2);
    lemma_bit_times_exp(bit(i, 0), w);
    lemma_bit_times_exp(bit(i, 1), w);
    lemma_bit_times_exp(bit(i, 2), w);
    lemma_child_bit(o.x, bit(i, 0), w);
    lemma_child_bit(o.y, bit(i, 1), w);
    lemma_child_bit(o.z, bit(i, 2), w);
    assert(bit(i, 0) + 2 * bit(i, 1) + 4 * bit(i, 2) == i) by (bit_vector)
        requires
            i < 8,
    ;
}

} // verus!
