//! Generators that map an index to a point or a primitive of some shape, and
//! the sequences of all of them.
use vstd::prelude::*;

use crate::mesh::primitive::Polygonal;

verus! {

/// Shapes that give their points by index.
pub trait PointGenerator {
    type Output;

    /// The point at `index`.
    spec fn point_at(&self, index: int) -> Self::Output;

    /// The number of points.
    spec fn point_total(&self) -> nat;

    fn spatial_point(&self, index: usize) -> (r: Self::Output)
        requires
            index < self.point_total(),
        ensures
            r == self.point_at(index as int),
    ;

    fn point_count(&self) -> (r: usize)
        ensures
            r == self.point_total(),
    ;
}

/// Shapes that give all their points in order.
pub trait SpatialPoints<P>: Sized {
    /// The points of the shape, in order.
    spec fn spatial_point_seq(&self) -> Seq<P>;

    fn spatial_points(&self) -> (r: Vec<P>)
        ensures
            r@ == self.spatial_point_seq(),
    ;
}

impl<G: PointGenerator<Output = P>, P> SpatialPoints<P> for G {
    open spec fn spatial_point_seq(&self) -> Seq<P> {
        Seq::new(self.point_total(), |i: int| self.point_at(i))
    }

    fn spatial_points(&self) -> (r: Vec<P>) {
        let count = self.point_count();
        let mut points = Vec::new();
        let mut i: usize = 0;
        while i < count
            invariant
                i <= count,
                count == self.point_total(),
                points@ =~= Seq::new(i as nat, |j: int| self.point_at(j)),
            decreases count - i,
        {
            points.push(self.spatial_point(i));
            i = i + 1;
        }
        points
    }
}

/// Shapes that give their polygons by index.
pub trait PolygonGenerator {
    type Output: Polygonal;

    /// The polygon at `index`.
    spec fn polygon_at(&self, index: int) -> Self::Output;

    /// The number of polygons.
    spec fn polygon_total(&self) -> nat;

    fn spatial_polygon(&self, index: usize) -> (r: Self::Output)
        requires
            index < self.polygon_total(),
        ensures
            r == self.polygon_at(index as int),
    ;

    fn polygon_count(&self) -> (r: usize)
        ensures
            r == self.polygon_total(),
    ;
}

/// Shapes that give all their polygons in order.
pub trait SpatialPolygons<P>: Sized {
    /// The polygons of the shape, in order.
    spec fn spatial_polygon_seq(&self) -> Seq<P>;

    fn spatial_polygons(&self) -> (r: Vec<P>)
        ensures
            r@ == self.spatial_polygon_seq(),
    ;
}

impl<G: PolygonGenerator<Output = P>, P: Polygonal> SpatialPolygons<P> for G {
    open spec fn spatial_polygon_seq(&self) -> Seq<P> {
        Seq::new(self.polygon_total(), |i: int| self.polygon_at(i))
    }

    fn spatial_polygons(&self) -> (r: Vec<P>) {
        let count = self.polygon_count();
        let mut polygons = Vec::new();
        let mut i: usize = 0;
        while i < count
            invariant
                i <= count,
                count == self.polygon_total(),
                polygons@ =~= Seq::new(i as nat, |j: int| self.polygon_at(j)),
            decreases count - i,
        {
            polygons.push(self.spatial_polygon(i));
            i = i + 1;
        }
        polygons
    }
}

/// Shapes whose polygons can be given as indices of their points.
pub trait IndexedPolygonGenerator: PointGenerator + PolygonGenerator {
    type Output: Polygonal;

    /// The polygon at `index`, as indices of points.
    spec fn indexed_polygon_at(&self, index: int) -> <Self as IndexedPolygonGenerator>::Output;

    fn indexed_polygon(&self, index: usize) -> (r: <Self as IndexedPolygonGenerator>::Output)
        requires
            index < self.polygon_total(),
        ensures
            r == self.indexed_polygon_at(index as int),
    ;
}

/// Shapes that give all their polygons as indices of their points.
pub trait IndexedPolygons<P>: Sized {
    /// The indexed polygons of the shape, in order.
    spec fn indexed_polygon_seq(&self) -> Seq<P>;

    fn indexed_polygons(&self) -> (r: Vec<P>)
        ensures
            r@ == self.indexed_polygon_seq(),
    ;
}

impl<G: IndexedPolygonGenerator<Output = P>, P: Polygonal> IndexedPolygons<P> for G {
    open spec fn indexed_polygon_seq(&self) -> Seq<P> {
        Seq::new(self.polygon_total(), |i: int| self.indexed_polygon_at(i))
    }

    fn indexed_polygons(&self) -> (r: Vec<P>) {
        let count = self.polygon_count();
        let mut polygons = Vec::new();
        let mut i: usize = 0;
        while i < count
            invariant
                i <= count,
                count == self.polygon_total(),
                polygons@ =~= Seq::new(i as nat, |j: int| self.indexed_polygon_at(j)),
            decreases count - i,
        {
            polygons.push(self.indexed_polygon(i));
            i = i + 1;
        }
        polygons
    }
}

/// Shapes whose polygons carry texture coordinates.
pub trait TexturedPolygonGenerator: PolygonGenerator {
    type Output: Polygonal;

    /// The texture coordinates of the polygon at `index`.
    spec fn textured_polygon_at(&self, index: int) -> <Self as TexturedPolygonGenerator>::Output;

    fn textured_polygon(&self, index: usize) -> (r: <Self as TexturedPolygonGenerator>::Output)
        requires
            index < self.polygon_total(),
        ensures
            r == self.textured_polygon_at(index as int),
    ;
}

/// Shapes that give the texture coordinates of all their polygons.
pub trait TexturedPolygons<P>: Sized {
    /// The texture coordinates of the polygons, in order.
    spec fn textured_polygon_seq(&self) -> Seq<P>;

    fn textured_polygons(&self) -> (r: Vec<P>)
        ensures
            r@ == self.textured_polygon_seq(),
    ;
}

impl<G: TexturedPolygonGenerator<Output = P>, P: Polygonal> TexturedPolygons<P> for G {
    open spec fn textured_polygon_seq(&self) -> Seq<P> {
        Seq::new(self.polygon_total(), |i: int| self.textured_polygon_at(i))
    }

    fn textured_polygons(&self) -> (r: Vec<P>) {
        let count = self.polygon_count();
        let mut polygons = Vec::new();
        let mut i: usize = 0;
        while i < count
            invariant
                i <= count,
                count == self.polygon_total(),
                polygons@ =~= Seq::new(i as nat, |j: int| self.textured_polygon_at(j)),
            decreases count - i,
        {
            polygons.push(self.textured_polygon(i));
            i = i + 1;
        }
        polygons
    }
}

} // verus!
