//! Cursors: contiguous selections of cubes of one width.
use vstd::prelude::*;

use crate::math::{LowerBound, UPoint3, UVector3, UpperBound};
use crate::space::{aabb_endpoint, aabb_fits, exp_spec, high_mask, mask_point, LogWidth, Partition, Spatial, AABB};

verus! {

/// A contiguous selection of cubes in a tree: a box of cubes of one width,
/// given by the origin of its first cube and a span counting further cubes
/// along each axis.
#[derive(Clone, Copy)]
pub struct Cursor {
    origin: UPoint3,
    width: LogWidth,
    span: UVector3,
}

/// The extent of a cursor along an axis: `(span + 1) * 2ʷ - 1`.
pub open spec fn span_extent(span: u32, w: u8) -> int {
    (span + 1) * exp_spec(w) - 1
}

/// Computing the extent of a cursor does not overflow.
pub open spec fn extent_fits(span: UVector3, w: u8) -> bool {
    &&& (span.x + 1) * exp_spec(w) <= u32::MAX
    &&& (span.y + 1) * exp_spec(w) <= u32::MAX
    &&& (span.z + 1) * exp_spec(w) <= u32::MAX
}

impl Cursor {
    /// The origin of the cursor.
    pub closed spec fn origin_spec(self) -> UPoint3 {
        self.origin
    }

    /// The logarithmic width of the selected cubes.
    pub closed spec fn width_spec(self) -> u8 {
        self.width.inner()
    }

    /// The span of the cursor.
    pub closed spec fn span_spec(self) -> UVector3 {
        self.span
    }

    /// The bounding box of the cursor.
    pub open spec fn aabb_spec(self) -> AABB {
        AABB {
            origin: self.origin_spec(),
            extent: UVector3 {
                x: span_extent(self.span_spec().x, self.width_spec()) as u32,
                y: span_extent(self.span_spec().y, self.width_spec()) as u32,
                z: span_extent(self.span_spec().z, self.width_spec()) as u32,
            },
        }
    }

    fn new(origin: &UPoint3, width: LogWidth, span: &UVector3) -> (r: Self)
        ensures
            r.origin_spec() == *origin,
            r.width_spec() == width.inner(),
            r.span_spec() == *span,
    {
        Cursor { origin: *origin, width, span: *span }
    }

    /// A cursor selecting the one cube of the given width that contains the point.
    pub fn at_point(point: &UPoint3, width: LogWidth) -> (r: Self)
        ensures
            r.origin_spec() == mask_point(*point, width.inner()),
            r.width_spec() == width.inner(),
            r.span_spec() == UVector3::zero_spec(),
    {
        Cursor::at_point_with_span(point, width, &UVector3::zero())
    }

    /// A cursor starting at the cube of the given width that contains the
    /// point, spanning `span` further cubes along each axis.
    pub fn at_point_with_span(point: &UPoint3, width: LogWidth, span: &UVector3) -> (r: Self)
        ensures
            r.origin_spec() == mask_point(*point, width.inner()),
            r.width_spec() == width.inner(),
            r.span_spec() == *span,
    {
        let partition = Partition::at_point(point, width);
        Cursor::new(partition.origin(), width, span)
    }

    /// A cursor from the cube containing the lower bound of two points to the
    /// cube containing their upper bound (see `LowerBound` and `UpperBound`).
    pub fn from_point_to_point(start: &UPoint3, end: &UPoint3, width: LogWidth) -> (r: Self)
        ensures
            r.width_spec() == width.inner(),
            r.origin_spec() == mask_point(start.lower_bound_spec(*end), width.inner()),
            r.span_spec().x == (mask_point(start.upper_bound_spec(*end), width.inner()).x
                - r.origin_spec().x) / exp_spec(width.inner()) as int,
            r.span_spec().y == (mask_point(start.upper_bound_spec(*end), width.inner()).y
                - r.origin_spec().y) / exp_spec(width.inner()) as int,
            r.span_spec().z == (mask_point(start.upper_bound_spec(*end), width.inner()).z
                - r.origin_spec().z) / exp_spec(width.inner()) as int,
    {
        let lower = start.lower_bound(end);
        let upper = start.upper_bound(end);
        let s = Partition::at_point(&lower, width);
        let e = Partition::at_point(&upper, width);
        let w = width.to_inner();
        proof {
            lemma_mask_monotone(lower.x, upper.x, w);
            lemma_mask_monotone(lower.y, upper.y, w);
            lemma_mask_monotone(lower.z, upper.z, w);
        }
        let d = e.origin().sub_point(s.origin());
        let x = width.exp();
        let span = UVector3::new(d.x / x, d.y / x, d.z / x);
        Cursor::new(s.origin(), width, &span)
    }

    /// A cursor selecting one cube.
    pub fn at_cube<C: Spatial>(cube: &C) -> (r: Self)
        ensures
            r.origin_spec() == cube.spatial_partition().origin_spec(),
            r.width_spec() == cube.spatial_partition().width_spec(),
            r.span_spec() == UVector3::zero_spec(),
    {
        let p = cube.partition();
        let r = Cursor::at_point(p.origin(), p.width());
        proof {
            crate::space::lemma_aligned_mask(*p);
        }
        r
    }

    /// A cursor starting at a cube and spanning `span` further cubes.
    pub fn at_cube_with_span<C: Spatial>(cube: &C, span: &UVector3) -> (r: Self)
        ensures
            r.origin_spec() == cube.spatial_partition().origin_spec(),
            r.width_spec() == cube.spatial_partition().width_spec(),
            r.span_spec() == *span,
    {
        let p = cube.partition();
        let r = Cursor::at_point_with_span(p.origin(), p.width(), span);
        proof {
            crate::space::lemma_aligned_mask(*p);
        }
        r
    }

    /// A cursor over the union of the boxes of two cubes, at the smaller of
    /// their widths: from the cube containing the lower bound of their
    /// origins to the cube containing the upper bound of their far corners.
    pub fn from_cube_to_cube<S: Spatial, E: Spatial>(start: &S, end: &E) -> (r: Self)
        ensures
            r.width_spec() == crate::math::min_u32(
                start.spatial_partition().width_spec() as u32,
                end.spatial_partition().width_spec() as u32,
            ),
            ({
                let a = start.spatial_partition().aabb_spec();
                let b = end.spatial_partition().aabb_spec();
                let w = r.width_spec();
                let lo = mask_point(a.origin.lower_bound_spec(b.origin), w);
                let hi = mask_point(aabb_endpoint(a).upper_bound_spec(aabb_endpoint(b)), w);
                &&& r.origin_spec() == lo
                &&& r.span_spec().x == (hi.x - lo.x) / exp_spec(w) as int
                &&& r.span_spec().y == (hi.y - lo.y) / exp_spec(w) as int
                &&& r.span_spec().z == (hi.z - lo.z) / exp_spec(w) as int
            }),
    {
        let sp = start.partition();
        let ep = end.partition();
        let sw = sp.width();
        let ew = ep.width();
        let width = if sw.to_inner() <= ew.to_inner() {
            sw
        } else {
            ew
        };
        let a = sp.aabb();
        let b = ep.aabb();
        let aabb = a.union(&b);
        let far = aabb.endpoint();
        proof {
            assert(aabb.origin.coord(0) == crate::math::min_u32(a.origin.coord(0), b.origin.coord(0)));
            assert(aabb.origin.coord(1) == crate::math::min_u32(a.origin.coord(1), b.origin.coord(1)));
            assert(aabb.origin.coord(2) == crate::math::min_u32(a.origin.coord(2), b.origin.coord(2)));
            assert(aabb.origin.lower_bound_spec(far) == a.origin.lower_bound_spec(b.origin));
            assert(aabb.origin.upper_bound_spec(far) == aabb_endpoint(a).upper_bound_spec(
                aabb_endpoint(b),
            ));
        }
        Cursor::from_point_to_point(&aabb.origin, &far, width)
    }

    /// Gets the origin of the cursor.
    pub fn origin(&self) -> (r: &UPoint3)
        ensures
            *r == self.origin_spec(),
    {
        &self.origin
    }

    /// Gets the width of the cubes that the cursor selects.
    pub fn width(&self) -> (r: LogWidth)
        ensures
            r.inner() == self.width_spec(),
    {
        self.width
    }

    /// Gets the span of the cursor.
    pub fn span(&self) -> (r: &UVector3)
        ensures
            *r == self.span_spec(),
    {
        &self.span
    }

    /// Gets the extent of the cursor from its origin.
    pub fn extent(&self) -> (r: UVector3)
        requires
            extent_fits(self.span_spec(), self.width_spec()),
        ensures
            r == self.aabb_spec().extent,
    {
        let e = self.width.exp();
        proof {
            lemma_extent_bounds(self.span.x, e);
            lemma_extent_bounds(self.span.y, e);
            lemma_extent_bounds(self.span.z, e);
        }
        UVector3::new(
            (self.span.x + 1) * e - 1,
            (self.span.y + 1) * e - 1,
            (self.span.z + 1) * e - 1,
        )
    }

    /// Whether the cursor's cubes all lie in the space of the tree's
    /// coordinates: its extent can be computed and its far corner does not
    /// leave the space.
    pub fn fits(&self) -> (r: bool)
        ensures
            r == (extent_fits(self.span_spec(), self.width_spec()) && aabb_fits(self.aabb_spec())),
    {
        let e: u64 = self.width.exp() as u64;
        let sx: u64 = self.span.x as u64 + 1;
        let sy: u64 = self.span.y as u64 + 1;
        let sz: u64 = self.span.z as u64 + 1;
        proof {
            assert(sx * e <= 0x1_0000_0000u64 * 0x8000_0000u64) by (nonlinear_arith)
                requires
                    1 <= sx <= 0x1_0000_0000u64,
                    1 <= e <= 0x8000_0000u64,
            ;
            assert(sy * e <= 0x1_0000_0000u64 * 0x8000_0000u64) by (nonlinear_arith)
                requires
                    1 <= sy <= 0x1_0000_0000u64,
                    1 <= e <= 0x8000_0000u64,
            ;
            assert(sz * e <= 0x1_0000_0000u64 * 0x8000_0000u64) by (nonlinear_arith)
                requires
                    1 <= sz <= 0x1_0000_0000u64,
                    1 <= e <= 0x8000_0000u64,
            ;
            assert(sx * e >= 1 && sy * e >= 1 && sz * e >= 1) by (nonlinear_arith)
                requires
                    sx >= 1,
                    sy >= 1,
                    sz >= 1,
                    e >= 1,
            ;
        }
        let fx: u64 = sx * e;
        let fy: u64 = sy * e;
        let fz: u64 = sz * e;
        let max: u64 = 0xffff_ffff;
        if fx > max || fy > max || fz > max {
            return false;
        }
        self.origin.x as u64 + (fx - 1) <= max && self.origin.y as u64 + (fy - 1) <= max
            && self.origin.z as u64 + (fz - 1) <= max
    }

    /// Gets the bounding box of the cursor.
    pub fn aabb(&self) -> (r: AABB)
        requires
            extent_fits(self.span_spec(), self.width_spec()),
        ensures
            r == self.aabb_spec(),
    {
        AABB::new(self.origin, self.extent())
    }
}

proof fn lemma_extent_bounds(span: u32, e: u32)
    requires
        e >= 1,
        (span + 1) * e <= u32::MAX,
    ensures
        span + 1 <= u32::MAX,
        (span + 1) * e >= 1,
{
    assert((span + 1) * e >= 1) by (nonlinear_arith)
        requires
            e >= 1,
            span >= 0,
    ;
    assert(span + 1 <= (span + 1) * e) by (nonlinear_arith)
        requires
            e >= 1,
            span >= 0,
    ;
}

/// Masking to a width keeps the order of values.
proof fn lemma_mask_monotone(a: u32, b: u32, w: u8)
    requires
        a <= b,
        w <= 31,
    ensures
        a & high_mask(w) <= b & high_mask(w),
{
    let s = w as u32;
    assert((a & (!0u32 << s)) <= (b & (!0u32 << s))) by (bit_vector)
        requires
            a <= b,
    ;
}

} // verus!
