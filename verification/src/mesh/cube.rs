//! A cube mesh: eight corners, six quad faces, the plane of each face and
//! the texture corners of each face.
use vstd::prelude::*;

use crate::math::UPoint2;
use crate::mesh::generate::{
    IndexedPolygonGenerator,
    PointGenerator,
    PolygonGenerator,
    TexturedPolygonGenerator,
};
use crate::mesh::primitive::{MapPrimitive, Primitive, Quad};

verus! {

/// Scalars with the bounds of a unit cube.
pub trait Unit: Copy {
    /// The lower and upper bound of a cube of unit radius.
    spec fn unit_radius_spec() -> (Self, Self);

    /// The lower and upper bound of a cube of unit width.
    spec fn unit_width_spec() -> (Self, Self);

    fn unit_radius() -> (r: (Self, Self))
        ensures
            r == Self::unit_radius_spec(),
    ;

    fn unit_width() -> (r: (Self, Self))
        ensures
            r == Self::unit_width_spec(),
    ;
}

impl Unit for i8 {
    open spec fn unit_radius_spec() -> (i8, i8) {
        (0, 2)
    }

    open spec fn unit_width_spec() -> (i8, i8) {
        (0, 1)
    }

    fn unit_radius() -> (r: (i8, i8)) {
        (0, 2)
    }

    fn unit_width() -> (r: (i8, i8)) {
        (0, 1)
    }
}

impl Unit for i16 {
    open spec fn unit_radius_spec() -> (i16, i16) {
        (0, 2)
    }

    open spec fn unit_width_spec() -> (i16, i16) {
        (0, 1)
    }

    fn unit_radius() -> (r: (i16, i16)) {
        (0, 2)
    }

    fn unit_width() -> (r: (i16, i16)) {
        (0, 1)
    }
}

impl Unit for i32 {
    open spec fn unit_radius_spec() -> (i32, i32) {
        (0, 2)
    }

    open spec fn unit_width_spec() -> (i32, i32) {
        (0, 1)
    }

    fn unit_radius() -> (r: (i32, i32)) {
        (0, 2)
    }

    fn unit_width() -> (r: (i32, i32)) {
        (0, 1)
    }
}

impl Unit for i64 {
    open spec fn unit_radius_spec() -> (i64, i64) {
        (0, 2)
    }

    open spec fn unit_width_spec() -> (i64, i64) {
        (0, 1)
    }

    fn unit_radius() -> (r: (i64, i64)) {
        (0, 2)
    }

    fn unit_width() -> (r: (i64, i64)) {
        (0, 1)
    }
}

impl Unit for u8 {
    open spec fn unit_radius_spec() -> (u8, u8) {
        (0, 2)
    }

    open spec fn unit_width_spec() -> (u8, u8) {
        (0, 1)
    }

    fn unit_radius() -> (r: (u8, u8)) {
        (0, 2)
    }

    fn unit_width() -> (r: (u8, u8)) {
        (0, 1)
    }
}

impl Unit for u16 {
    open spec fn unit_radius_spec() -> (u16, u16) {
        (0, 2)
    }

    open spec fn unit_width_spec() -> (u16, u16) {
        (0, 1)
    }

    fn unit_radius() -> (r: (u16, u16)) {
        (0, 2)
    }

    fn unit_width() -> (r: (u16, u16)) {
        (0, 1)
    }
}

impl Unit for u32 {
    open spec fn unit_radius_spec() -> (u32, u32) {
        (0, 2)
    }

    open spec fn unit_width_spec() -> (u32, u32) {
        (0, 1)
    }

    fn unit_radius() -> (r: (u32, u32)) {
        (0, 2)
    }

    fn unit_width() -> (r: (u32, u32)) {
        (0, 1)
    }
}

impl Unit for u64 {
    open spec fn unit_radius_spec() -> (u64, u64) {
        (0, 2)
    }

    open spec fn unit_width_spec() -> (u64, u64) {
        (0, 1)
    }

    fn unit_radius() -> (r: (u64, u64)) {
        (0, 2)
    }

    fn unit_width() -> (r: (u64, u64)) {
        (0, 1)
    }
}

/// The plane in which a face of a cube lies, named by the axes it spans (`N`
/// for a negative direction).
#[derive(Clone, Copy, Debug, PartialEq, Eq, Structural)]
pub enum FacePlane {
    XY,
    NXY,
    ZY,
    NZY,
    XZ,
    XNZ,
}

/// A point of a cube mesh.
#[derive(Clone, Copy, Debug, PartialEq, Eq)]
pub struct Point3<T> {
    pub x: T,
    pub y: T,
    pub z: T,
}

/// The corners of the faces of a cube, as indices of its points: front,
/// right, top, left, bottom and back.
pub open spec fn face_indices(index: int) -> Quad<usize> {
    if index == 0 {
        Quad { a: 5, b: 7, c: 3, d: 1 }
    } else if index == 1 {
        Quad { a: 6, b: 7, c: 5, d: 4 }
    } else if index == 2 {
        Quad { a: 3, b: 7, c: 6, d: 2 }
    } else if index == 3 {
        Quad { a: 0, b: 1, c: 3, d: 2 }
    } else if index == 4 {
        Quad { a: 4, b: 5, c: 1, d: 0 }
    } else {
        Quad { a: 0, b: 2, c: 6, d: 4 }
    }
}

/// The plane of each face, in the order of `face_indices`.
pub open spec fn face_plane(index: int) -> FacePlane {
    if index == 0 {
        FacePlane::XY
    } else if index == 1 {
        FacePlane::NZY
    } else if index == 2 {
        FacePlane::XNZ
    } else if index == 3 {
        FacePlane::ZY
    } else if index == 4 {
        FacePlane::XZ
    } else {
        FacePlane::NXY
    }
}

/// The texture corners of each face, in the order of `face_indices`: `(1, 1)`,
/// `(1, 0)`, `(0, 0)` and `(0, 1)`, each face starting at its own corner.
pub open spec fn face_texture(index: int) -> Quad<UPoint2> {
    let uu = UPoint2 { x: 1, y: 1 };
    let ul = UPoint2 { x: 1, y: 0 };
    let ll = UPoint2 { x: 0, y: 0 };
    let lu = UPoint2 { x: 0, y: 1 };
    if index == 1 {
        Quad { a: ul, b: ll, c: lu, d: uu }
    } else if index == 2 || index == 3 {
        Quad { a: lu, b: uu, c: ul, d: ll }
    } else {
        Quad { a: uu, b: ul, c: ll, d: lu }
    }
}

/// The plane of a face, at each of its corners.
pub open spec fn face_plane_quad(index: int) -> Quad<FacePlane> {
    Quad { a: face_plane(index), b: face_plane(index), c: face_plane(index), d: face_plane(index) }
}

fn index_face(index: usize) -> (r: Quad<usize>)
    requires
        index < 6,
    ensures
        r == face_indices(index as int),
{
    match index {
        0 => Quad::new(5, 7, 3, 1),
        1 => Quad::new(6, 7, 5, 4),
        2 => Quad::new(3, 7, 6, 2),
        3 => Quad::new(0, 1, 3, 2),
        4 => Quad::new(4, 5, 1, 0),
        _ => Quad::new(0, 2, 6, 4),
    }
}

fn texture_face(index: usize) -> (r: Quad<UPoint2>)
    requires
        index < 6,
    ensures
        r == face_texture(index as int),
{
    let uu = UPoint2 { x: 1, y: 1 };
    let ul = UPoint2 { x: 1, y: 0 };
    let ll = UPoint2 { x: 0, y: 0 };
    let lu = UPoint2 { x: 0, y: 1 };
    match index {
        0 => Quad::new(uu, ul, ll, lu),
        1 => Quad::new(ul, ll, lu, uu),
        2 => Quad::new(lu, uu, ul, ll),
        3 => Quad::new(lu, uu, ul, ll),
        4 => Quad::new(uu, ul, ll, lu),
        _ => Quad::new(uu, ul, ll, lu),
    }
}

fn plane_face(index: usize) -> (r: Quad<FacePlane>)
    requires
        index < 6,
    ensures
        r == face_plane_quad(index as int),
{
    match index {
        0 => Quad::converged(FacePlane::XY),
        1 => Quad::converged(FacePlane::NZY),
        2 => Quad::converged(FacePlane::XNZ),
        3 => Quad::converged(FacePlane::ZY),
        4 => Quad::converged(FacePlane::XZ),
        _ => Quad::converged(FacePlane::NXY),
    }
}

/// An axis-aligned cube between a lower and an upper bound on every axis.
#[derive(Clone, Copy, Debug)]
pub struct Cube<T: Unit> {
    lower: T,
    upper: T,
}

impl<T: Unit> Cube<T> {
    /// The lower bound on every axis.
    pub closed spec fn lower_spec(self) -> T {
        self.lower
    }

    /// The upper bound on every axis.
    pub closed spec fn upper_spec(self) -> T {
        self.upper
    }

    fn new(lower: T, upper: T) -> (r: Self)
        ensures
            r.lower_spec() == lower,
            r.upper_spec() == upper,
    {
        Cube { lower, upper }
    }

    pub fn with_unit_radius() -> (r: Self)
        ensures
            (r.lower_spec(), r.upper_spec()) == T::unit_radius_spec(),
    {
        let (lower, upper) = T::unit_radius();
        Cube::new(lower, upper)
    }

    pub fn with_unit_width() -> (r: Self)
        ensures
            (r.lower_spec(), r.upper_spec()) == T::unit_width_spec(),
    {
        let (lower, upper) = T::unit_width();
        Cube::new(lower, upper)
    }

    /// The bound that bit `bit` of a corner index selects: the upper bound
    /// where the bit is set.
    pub open spec fn bound(self, index: usize, bit: usize) -> T {
        if index & bit == bit {
            self.upper_spec()
        } else {
            self.lower_spec()
        }
    }

    /// The corner with index `index`: bit 2 selects the bound on x, bit 1 on
    /// y and bit 0 on z.
    pub open spec fn corner(self, index: usize) -> Point3<T> {
        Point3 { x: self.bound(index, 4), y: self.bound(index, 2), z: self.bound(index, 1) }
    }

    /// The face with index `index`, as corners.
    pub open spec fn face_spec(self, index: int) -> Quad<Point3<T>> {
        let q = face_indices(index);
        Quad { a: self.corner(q.a), b: self.corner(q.b), c: self.corner(q.c), d: self.corner(q.d) }
    }

    fn point(&self, index: usize) -> (r: Point3<T>)
        ensures
            r == self.corner(index),
    {
        let x = if index & 0b100 == 0b100 {
            self.upper
        } else {
            self.lower
        };
        let y = if index & 0b010 == 0b010 {
            self.upper
        } else {
            self.lower
        };
        let z = if index & 0b001 == 0b001 {
            self.upper
        } else {
            self.lower
        };
        Point3 { x, y, z }
    }

    fn face(&self, index: usize) -> (r: Quad<Point3<T>>)
        requires
            index < 6,
        ensures
            r == self.face_spec(index as int),
    {
        let indices = index_face(index);
        let corner = |i: usize| -> (p: Point3<T>)
            ensures
                p == self.corner(i),
            { self.point(i) };
        let r = indices.map_primitive(corner);
        assert(r.point_seq()[0] == self.corner(indices.a));
        assert(r.point_seq()[1] == self.corner(indices.b));
        assert(r.point_seq()[2] == self.corner(indices.c));
        assert(r.point_seq()[3] == self.corner(indices.d));
        r
    }

    /// The six faces, as corners.
    pub fn polygons(&self) -> (r: Vec<Quad<Point3<T>>>)
        ensures
            r@ == Seq::new(6, |i: int| self.face_spec(i)),
    {
        let mut faces = Vec::new();
        let mut i: usize = 0;
        while i < 6
            invariant
                i <= 6,
                faces@ =~= Seq::new(i as nat, |j: int| self.face_spec(j)),
            decreases 6 - i,
        {
            faces.push(self.face(i));
            i = i + 1;
        }
        faces
    }

    /// The plane of each of the six faces, at each corner.
    pub fn plane_polygons(&self) -> (r: Vec<Quad<FacePlane>>)
        ensures
            r@ == Seq::new(6, |i: int| face_plane_quad(i)),
    {
        let mut faces = Vec::new();
        let mut i: usize = 0;
        while i < 6
            invariant
                i <= 6,
                faces@ =~= Seq::new(i as nat, |j: int| face_plane_quad(j)),
            decreases 6 - i,
        {
            faces.push(plane_face(i));
            i = i + 1;
        }
        faces
    }
}

impl<T: Unit> PointGenerator for Cube<T> {
    type Output = Point3<T>;

    open spec fn point_at(&self, index: int) -> Point3<T> {
        self.corner(index as usize)
    }

    open spec fn point_total(&self) -> nat {
        8
    }

    fn spatial_point(&self, index: usize) -> (r: Point3<T>) {
        self.point(index)
    }

    fn point_count(&self) -> (r: usize) {
        8
    }
}

impl<T: Unit> PolygonGenerator for Cube<T> {
    type Output = Quad<Point3<T>>;

    open spec fn polygon_at(&self, index: int) -> Quad<Point3<T>> {
        self.face_spec(index)
    }

    open spec fn polygon_total(&self) -> nat {
        6
    }

    fn spatial_polygon(&self, index: usize) -> (r: Quad<Point3<T>>) {
        self.face(index)
    }

    fn polygon_count(&self) -> (r: usize) {
        6
    }
}

impl<T: Unit> IndexedPolygonGenerator for Cube<T> {
    type Output = Quad<usize>;

    open spec fn indexed_polygon_at(&self, index: int) -> Quad<usize> {
        face_indices(index)
    }

    fn indexed_polygon(&self, index: usize) -> (r: Quad<usize>) {
        index_face(index)
    }
}

impl<T: Unit> TexturedPolygonGenerator for Cube<T> {
    type Output = Quad<UPoint2>;

    open spec fn textured_polygon_at(&self, index: int) -> Quad<UPoint2> {
        face_texture(index)
    }

    fn textured_polygon(&self, index: usize) -> (r: Quad<UPoint2>) {
        texture_face(index)
    }
}

/// Each face of a cube has four different corners, all among its eight
/// points, and lies in one plane: one bit is the same in all four corner
/// indices.
pub proof fn lemma_face_is_planar(index: int)
    requires
        0 <= index < 6,
    ensures
        ({
            let q = face_indices(index);
            &&& q.a < 8 && q.b < 8 && q.c < 8 && q.d < 8
            &&& q.a != q.b && q.a != q.c && q.a != q.d && q.b != q.c && q.b != q.d && q.c != q.d
            &&& exists|bit: usize|
                (bit == 1 || bit == 2 || bit == 4) && (q.a & bit) == (q.b & bit) && (q.b & bit) == (
                q.c & bit) && (q.c & bit) == (q.d & bit)
        }),
{
    let q = face_indices(index);
    if index == 0 {
        assert((5usize & 1) == 1 && (7usize & 1) == 1 && (3usize & 1) == 1 && (1usize & 1) == 1)
            by (bit_vector);
        assert((q.a & 1usize) == (q.b & 1usize));
    } else if index == 1 {
        assert((6usize & 4) == 4 && (7usize & 4) == 4 && (5usize & 4) == 4 && (4usize & 4) == 4)
            by (bit_vector);
        assert((q.a & 4usize) == (q.b & 4usize));
    } else if index == 2 {
        assert((3usize & 2) == 2 && (7usize & 2) == 2 && (6usize & 2) == 2 && (2usize & 2) == 2)
            by (bit_vector);
        assert((q.a & 2usize) == (q.b & 2usize));
    } else if index == 3 {
        assert((0usize & 4) == 0 && (1usize & 4) == 0 && (3usize & 4) == 0 && (2usize & 4) == 0)
            by (bit_vector);
        assert((q.a & 4usize) == (q.b & 4usize));
    } else if index == 4 {
        assert((4usize & 2) == 0 && (5usize & 2) == 0 && (1usize & 2) == 0 && (0usize & 2) == 0)
            by (bit_vector);
        assert((q.a & 2usize) == (q.b & 2usize));
    } else {
        assert((0usize & 1) == 0 && (2usize & 1) == 0 && (6usize & 1) == 0 && (4usize & 1) == 0)
            by (bit_vector);
        assert((q.a & 1usize) == (q.b & 1usize));
    }
}

} // verus!
