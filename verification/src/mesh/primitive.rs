//! Primitives of meshes: lines, triangles, quads and polygons of points.
use vstd::prelude::*;

use crate::math::umod;

verus! {

/// A primitive made of points.
pub trait Primitive: Sized {
    type Point;

    /// The points of the primitive, in order.
    spec fn point_seq(&self) -> Seq<Self::Point>;
}

/// A primitive with an area, made of triangles.
pub trait Polygonal: Primitive {
    /// The triangles of the primitive, in order.
    spec fn triangle_seq(&self) -> Seq<Triangle<Self::Point>>;
}

/// Maps the points of a primitive to a primitive of the same shape.
pub trait MapPrimitive<T, U>: Primitive<Point = T> {
    type Output: Primitive<Point = U>;

    fn map_primitive<F: Fn(T) -> U>(self, f: F) -> (r: Self::Output)
        requires
            forall|t: T| #[trigger] f.requires((t,)),
        ensures
            r.point_seq().len() == self.point_seq().len(),
            forall|i: int|
                0 <= i < self.point_seq().len() ==> f.ensures(
                    (self.point_seq()[i],),
                    #[trigger] r.point_seq()[i],
                ),
    ;
}

/// Sequences of primitives whose points can all be mapped.
pub trait MapPoints<T, U, P: MapPrimitive<T, U>>: Sized {
    /// The primitives of the sequence.
    spec fn primitive_seq(&self) -> Seq<P>;

    fn map_points<F: Fn(T) -> U>(self, f: F) -> (r: Vec<P::Output>)
        requires
            forall|t: T| #[trigger] f.requires((t,)),
        ensures
            r.len() == self.primitive_seq().len(),
            forall|i: int|
                0 <= i < r.len() ==> (#[trigger] r[i]).point_seq().len() == self.primitive_seq()[i].point_seq().len(),
            forall|i: int, j: int|
                0 <= i < r.len() && 0 <= j < self.primitive_seq()[i].point_seq().len() ==> f.ensures(
                    (self.primitive_seq()[i].point_seq()[j],),
                    #[trigger] r[i].point_seq()[j],
                ),
    ;
}

impl<T, U, P: MapPrimitive<T, U>> MapPoints<T, U, P> for Vec<P> {
    open spec fn primitive_seq(&self) -> Seq<P> {
        self@
    }

    fn map_points<F: Fn(T) -> U>(self, f: F) -> (r: Vec<P::Output>) {
        let ghost before = self@;
        let mut rest = self;
        let mut mapped: Vec<P::Output> = Vec::new();
        while rest.len() > 0
            invariant
                forall|t: T| #[trigger] f.requires((t,)),
                mapped.len() + rest.len() == before.len(),
                rest@ == before.subrange(mapped.len() as int, before.len() as int),
                forall|i: int|
                    0 <= i < mapped.len() ==> (#[trigger] mapped[i]).point_seq().len()
                        == before[i].point_seq().len(),
                forall|i: int, j: int|
                    0 <= i < mapped.len() && 0 <= j < before[i].point_seq().len() ==> f.ensures(
                        (before[i].point_seq()[j],),
                        #[trigger] mapped[i].point_seq()[j],
                    ),
            decreases rest.len(),
        {
            let primitive = rest.remove(0);
            let ghost k = mapped.len() as int;
            assert(primitive == before[k]);
            let output = primitive.map_primitive(&f);
            mapped.push(output);
            assert(rest@ =~= before.subrange(mapped.len() as int, before.len() as int));
        }
        mapped
    }
}

/// Rotates the points of a primitive.
pub trait Rotate {
    fn rotate(&mut self, n: isize);
}

/// The sequence `s` rotated left by `k` places (`0 <= k < s.len()`).
pub open spec fn rotate_left<T>(s: Seq<T>, k: int) -> Seq<T> {
    s.subrange(k, s.len() as int) + s.subrange(0, k)
}

/// The sequence rotated left by `n` places (`n` taken modulo the length).
pub open spec fn rotated<T>(s: Seq<T>, n: int) -> Seq<T> {
    rotate_left(s, n % (s.len() as int))
}

/// Position `i` of a rotated sequence holds the item `n` places further on,
/// counting round the end.
pub proof fn lemma_rotated_index<T>(s: Seq<T>, n: int, i: int)
    requires
        0 <= i < s.len(),
    ensures
        rotated(s, n)[i] == s[(i + n) % (s.len() as int)],
        rotated(s, n).len() == s.len(),
{
    let len = s.len() as int;
    let k = n % len;
    vstd::arithmetic::div_mod::lemma_add_mod_noop_right(i, n, len);
    if i + k < len {
        vstd::arithmetic::div_mod::lemma_small_mod((i + k) as nat, len as nat);
    } else {
        vstd::arithmetic::div_mod::lemma_mod_add_multiples_vanish(i + k - len, len);
        vstd::arithmetic::div_mod::lemma_small_mod((i + k - len) as nat, len as nat);
    }
}

/// Rotating by `a` and then by `b` is rotating by `a + b`: `rotate(a)` then
/// `rotate(b)` leaves a line, triangle or quad as `rotate(a + b)` does.
pub proof fn lemma_rotated_compose<T>(s: Seq<T>, a: int, b: int)
    requires
        s.len() > 0,
    ensures
        rotated(rotated(s, a), b) == rotated(s, a + b),
{
    let len = s.len() as int;
    assert forall|i: int| 0 <= i < len implies #[trigger] rotated(rotated(s, a), b)[i] == rotated(
        s,
        a + b,
    )[i] by {
        lemma_rotated_index(s, a + b, i);
        lemma_rotated_index(rotated(s, a), b, i);
        let j = (i + b) % len;
        lemma_rotated_index(s, a, j);
        vstd::arithmetic::div_mod::lemma_add_mod_noop(i + b, a, len);
        vstd::arithmetic::div_mod::lemma_add_mod_noop(j, a, len);
        vstd::arithmetic::div_mod::lemma_mod_twice(i + b, len);
        assert(i + b + a == i + (a + b));
    }
    lemma_rotated_index(s, a + b, 0);
    lemma_rotated_index(rotated(s, a), b, 0);
    assert(rotated(rotated(s, a), b) =~= rotated(s, a + b));
}

/// Rotating by `n` and then by `-n` gives back the sequence: `rotate(n)`
/// then `rotate(-n)` restores a line, triangle or quad.
pub proof fn lemma_rotated_inverse<T>(s: Seq<T>, n: int)
    requires
        s.len() > 0,
    ensures
        rotated(rotated(s, n), -n) == s,
{
    lemma_rotated_compose(s, n, -n);
    assert(rotated(s, 0) =~= s);
}

/// A line segment.
#[derive(Clone, Copy, Debug, PartialEq, Eq)]
pub struct Line<T> {
    pub a: T,
    pub b: T,
}

impl<T> Line<T> {
    pub fn new(a: T, b: T) -> (r: Self)
        ensures
            r == (Line { a, b }),
    {
        Line { a, b }
    }

    /// A line whose ends meet at one point.
    pub fn converged(value: T) -> (r: Self)
        where
            T: Copy,
        ensures
            r == (Line { a: value, b: value }),
    {
        Line::new(value, value)
    }
}

impl<T> Primitive for Line<T> {
    type Point = T;

    open spec fn point_seq(&self) -> Seq<T> {
        seq![self.a, self.b]
    }
}

impl<T, U> MapPrimitive<T, U> for Line<T> {
    type Output = Line<U>;

    fn map_primitive<F: Fn(T) -> U>(self, f: F) -> (r: Line<U>) {
        let Line { a, b } = self;
        Line::new(f(a), f(b))
    }
}

impl<T> Rotate for Line<T> {
    /// Swaps the ends when `n` is odd.
    fn rotate(&mut self, n: isize)
        ensures
            final(self).point_seq() == rotated(old(self).point_seq(), n as int),
    {
        if n % 2 != 0 {
            std::mem::swap(&mut self.a, &mut self.b);
        }
        proof {
            assert(n as int % 2 == 0 || n as int % 2 == 1);
            assert(n % 2 != 0 <==> n as int % 2 == 1);
            assert(self.point_seq() =~= rotated(old(self).point_seq(), n as int));
        }
    }
}

/// A triangle.
#[derive(Clone, Copy, Debug, PartialEq, Eq)]
pub struct Triangle<T> {
    pub a: T,
    pub b: T,
    pub c: T,
}

impl<T> Triangle<T> {
    pub fn new(a: T, b: T, c: T) -> (r: Self)
        ensures
            r == (Triangle { a, b, c }),
    {
        Triangle { a, b, c }
    }

    /// A triangle whose corners meet at one point.
    pub fn converged(value: T) -> (r: Self)
        where
            T: Copy,
        ensures
            r == (Triangle { a: value, b: value, c: value }),
    {
        Triangle::new(value, value, value)
    }
}

impl<T> Primitive for Triangle<T> {
    type Point = T;

    open spec fn point_seq(&self) -> Seq<T> {
        seq![self.a, self.b, self.c]
    }
}

impl<T> Polygonal for Triangle<T> {
    open spec fn triangle_seq(&self) -> Seq<Triangle<T>> {
        seq![*self]
    }
}

impl<T, U> MapPrimitive<T, U> for Triangle<T> {
    type Output = Triangle<U>;

    fn map_primitive<F: Fn(T) -> U>(self, f: F) -> (r: Triangle<U>) {
        let Triangle { a, b, c } = self;
        Triangle::new(f(a), f(b), f(c))
    }
}

impl<T> Rotate for Triangle<T> {
    /// Rotates the corners left by `n` places.
    fn rotate(&mut self, n: isize)
        ensures
            final(self).point_seq() == rotated(old(self).point_seq(), n as int),
    {
        let k = umod(n, 3);
        if k == 1 {
            std::mem::swap(&mut self.a, &mut self.b);
            std::mem::swap(&mut self.b, &mut self.c);
        } else if k == 2 {
            std::mem::swap(&mut self.c, &mut self.b);
            std::mem::swap(&mut self.b, &mut self.a);
        }
        assert(self.point_seq() =~= rotated(old(self).point_seq(), n as int));
    }
}

/// A quadrilateral.
#[derive(Clone, Copy, Debug, PartialEq, Eq)]
pub struct Quad<T> {
    pub a: T,
    pub b: T,
    pub c: T,
    pub d: T,
}

impl<T> Quad<T> {
    pub fn new(a: T, b: T, c: T, d: T) -> (r: Self)
        ensures
            r == (Quad { a, b, c, d }),
    {
        Quad { a, b, c, d }
    }

    /// A quad whose corners meet at one point.
    pub fn converged(value: T) -> (r: Self)
        where
            T: Copy,
        ensures
            r == (Quad { a: value, b: value, c: value, d: value }),
    {
        Quad::new(value, value, value, value)
    }
}

impl<T> Primitive for Quad<T> {
    type Point = T;

    open spec fn point_seq(&self) -> Seq<T> {
        seq![self.a, self.b, self.c, self.d]
    }
}

impl<T> Polygonal for Quad<T> {
    open spec fn triangle_seq(&self) -> Seq<Triangle<T>> {
        seq![Triangle { a: self.a, b: self.b, c: self.c }, Triangle { a: self.c, b: self.d, c: self.a }]
    }
}

impl<T, U> MapPrimitive<T, U> for Quad<T> {
    type Output = Quad<U>;

    fn map_primitive<F: Fn(T) -> U>(self, f: F) -> (r: Quad<U>) {
        let Quad { a, b, c, d } = self;
        Quad::new(f(a), f(b), f(c), f(d))
    }
}

impl<T> Rotate for Quad<T> {
    /// Rotates the corners left by `n` places.
    fn rotate(&mut self, n: isize)
        ensures
            final(self).point_seq() == rotated(old(self).point_seq(), n as int),
    {
        let k = umod(n, 4);
        if k == 1 {
            std::mem::swap(&mut self.a, &mut self.b);
            std::mem::swap(&mut self.b, &mut self.c);
            std::mem::swap(&mut self.c, &mut self.d);
        } else if k == 2 {
            std::mem::swap(&mut self.a, &mut self.c);
            std::mem::swap(&mut self.b, &mut self.d);
        } else if k == 3 {
            std::mem::swap(&mut self.d, &mut self.c);
            std::mem::swap(&mut self.c, &mut self.b);
            std::mem::swap(&mut self.b, &mut self.a);
        }
        assert(self.point_seq() =~= rotated(old(self).point_seq(), n as int));
    }
}

/// A triangle or a quad.
#[derive(Clone, Copy, Debug, PartialEq, Eq)]
pub enum Polygon<T> {
    Triangle(Triangle<T>),
    Quad(Quad<T>),
}

impl<T> Primitive for Polygon<T> {
    type Point = T;

    open spec fn point_seq(&self) -> Seq<T> {
        match self {
            Polygon::Triangle(t) => t.point_seq(),
            Polygon::Quad(q) => q.point_seq(),
        }
    }
}

impl<T> Polygonal for Polygon<T> {
    open spec fn triangle_seq(&self) -> Seq<Triangle<T>> {
        match self {
            Polygon::Triangle(t) => t.triangle_seq(),
            Polygon::Quad(q) => q.triangle_seq(),
        }
    }
}

impl<T, U> MapPrimitive<T, U> for Polygon<T> {
    type Output = Polygon<U>;

    fn map_primitive<F: Fn(T) -> U>(self, f: F) -> (r: Polygon<U>) {
        match self {
            Polygon::Triangle(triangle) => Polygon::Triangle(triangle.map_primitive(f)),
            Polygon::Quad(quad) => Polygon::Quad(quad.map_primitive(f)),
        }
    }
}

impl<T> Rotate for Polygon<T> {
    /// Rotates the corners left by `n` places.
    fn rotate(&mut self, n: isize)
        ensures
            final(self).point_seq() == rotated(old(self).point_seq(), n as int),
            (*final(self) is Triangle) == (*old(self) is Triangle),
    {
        match self {
            Polygon::Triangle(triangle) => triangle.rotate(n),
            Polygon::Quad(quad) => quad.rotate(n),
        }
    }
}

impl<T> From<Triangle<T>> for Polygon<T> {
    fn from(triangle: Triangle<T>) -> (r: Self) {
        Polygon::Triangle(triangle)
    }
}

impl<T> vstd::std_specs::convert::FromSpecImpl<Triangle<T>> for Polygon<T> {
    open spec fn obeys_from_spec() -> bool {
        true
    }

    open spec fn from_spec(triangle: Triangle<T>) -> Self {
        Polygon::Triangle(triangle)
    }
}

impl<T> From<Quad<T>> for Polygon<T> {
    fn from(quad: Quad<T>) -> (r: Self) {
        Polygon::Quad(quad)
    }
}

impl<T> vstd::std_specs::convert::FromSpecImpl<Quad<T>> for Polygon<T> {
    open spec fn obeys_from_spec() -> bool {
        true
    }

    open spec fn from_spec(quad: Quad<T>) -> Self {
        Polygon::Quad(quad)
    }
}

} // verus!
