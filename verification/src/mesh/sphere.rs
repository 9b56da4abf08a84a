//! A UV sphere: meridians and parallels on a grid, closed by a point at each
//! pole. Points are given by their place `(u, v)` on the grid, `u` the
//! meridian and `v` the parallel; turning a place into a position in space is
//! left to the caller.
use vstd::prelude::*;

use crate::mesh::generate::{IndexedPolygonGenerator, PointGenerator, PolygonGenerator};
use crate::mesh::primitive::{Polygon, Primitive, Quad, Triangle};

verus! {

/// A sphere of `nu` meridians and `nv` parallels.
#[derive(Clone, Copy, Debug)]
pub struct UVSphere {
    nu: usize,
    nv: usize,
}

/// The grid sizes a sphere can have: at least three meridians and two
/// parallels, few enough that every index fits in a `usize`.
pub open spec fn sphere_size_ok(nu: int, nv: int) -> bool {
    &&& 3 <= nu
    &&& 2 <= nv
    &&& nu * nv + nu + 2 <= usize::MAX
}

/// The larger of two sizes.
pub open spec fn max_size(a: int, b: int) -> int {
    if a < b {
        b
    } else {
        a
    }
}

impl UVSphere {
    #[verifier::type_invariant]
    spec fn wf(self) -> bool {
        sphere_size_ok(self.nu as int, self.nv as int)
    }

    /// Whether the grid sizes are ones a sphere can have.
    pub closed spec fn valid(self) -> bool {
        self.wf()
    }

    /// The number of meridians.
    pub closed spec fn meridians(self) -> nat {
        self.nu as nat
    }

    /// The number of parallels.
    pub closed spec fn parallels(self) -> nat {
        self.nv as nat
    }

    /// A sphere of at least `nu` meridians (three or more) and at least `nv`
    /// parallels (two or more).
    pub fn with_unit_radius(nu: usize, nv: usize) -> (r: Self)
        requires
            sphere_size_ok(max_size(3, nu as int), max_size(2, nv as int)),
        ensures
            r.valid(),
            r.meridians() == max_size(3, nu as int),
            r.parallels() == max_size(2, nv as int),
    {
        let nu = if nu < 3 {
            3
        } else {
            nu
        };
        let nv = if nv < 2 {
            2
        } else {
            nv
        };
        UVSphere { nu, nv }
    }

    /// The index of the point at place `(u, v)`: the poles first and last,
    /// the parallels between them row by row, `u` taken round the meridians.
    pub closed spec fn point_index(self, u: int, v: int) -> int {
        if v == 0 {
            0
        } else if v == self.nv {
            (self.nv - 1) * self.nu + 1
        } else {
            (v - 1) * self.nu + u % (self.nu as int) + 1
        }
    }

    /// The place of a point index, as `spatial_point` computes it.
    pub closed spec fn place_of_point(self, index: int) -> (usize, usize) {
        if index == 0 {
            (0, 0)
        } else if index == (self.nv - 1) * self.nu + 1 {
            (0, self.nv)
        } else {
            (((index - 1) % (self.nu as int)) as usize, ((index - 1) / (self.nv as int) + 1) as usize)
        }
    }

    /// The polygon with its lower corner at place `(u, v)`, built from the
    /// corners that `corner` gives: a triangle at each pole, a quad between.
    pub closed spec fn polygon_of<C>(self, u: int, v: int, corner: spec_fn(int, int) -> C) -> Polygon<C> {
        let low = corner(u, v);
        let high = corner(u + 1, v + 1);
        if v == 0 {
            Polygon::Triangle(Triangle { a: low, b: corner(u, v + 1), c: high })
        } else if v == self.nv - 1 {
            Polygon::Triangle(Triangle { a: high, b: corner(u + 1, v), c: low })
        } else {
            Polygon::Quad(Quad { a: low, b: corner(u, v + 1), c: high, d: corner(u + 1, v) })
        }
    }

    fn indexed_point(&self, u: usize, v: usize) -> (r: usize)
        requires
            u <= self.nu,
            v <= self.nv,
        ensures
            r == self.point_index(u as int, v as int),
    {
        proof {
            use_type_invariant(self);
            assert((self.nv - 1) * self.nu <= self.nu * self.nv) by (nonlinear_arith)
                requires
                    self.nv >= 1,
            ;
            if 0 < v < self.nv {
                assert((v - 1) * self.nu <= (self.nv - 1) * self.nu) by (nonlinear_arith)
                    requires
                        1 <= v <= self.nv,
                ;
            }
        }
        if v == 0 {
            0
        } else if v == self.nv {
            ((self.nv - 1) * self.nu) + 1
        } else {
            ((v - 1) * self.nu) + (u % self.nu) + 1
        }
    }

    fn map_polygon_index(&self, index: usize) -> (r: (usize, usize))
        ensures
            r == ((index % self.nu) as usize, (index / self.nu) as usize),
    {
        proof {
            use_type_invariant(self);
        }
        (index % self.nu, index / self.nu)
    }

    proof fn lemma_polygon_place(self, index: int)
        requires
            self.wf(),
            0 <= index < self.nu * self.nv,
        ensures
            0 <= index % (self.nu as int) < self.nu,
            0 <= index / (self.nu as int) < self.nv,
    {
        vstd::arithmetic::div_mod::lemma_div_pos_is_pos(index, self.nu as int);
        vstd::arithmetic::div_mod::lemma_multiply_divide_lt(index, self.nu as int, self.nv as int);
    }
}

impl PointGenerator for UVSphere {
    type Output = (usize, usize);

    open spec fn point_at(&self, index: int) -> (usize, usize) {
        self.place_of_point(index)
    }

    open spec fn point_total(&self) -> nat {
        ((self.parallels() - 1) * self.meridians() + 2) as nat
    }

    fn spatial_point(&self, index: usize) -> (r: (usize, usize)) {
        proof {
            use_type_invariant(self);
            assert((self.nv - 1) * self.nu <= self.nu * self.nv) by (nonlinear_arith)
                requires
                    self.nv >= 1,
            ;
        }
        if index == 0 {
            (0, 0)
        } else if index == self.point_count() - 1 {
            (0, self.nv)
        } else {
            let index = index - 1;
            proof {
                vstd::arithmetic::div_mod::lemma_div_is_ordered_by_denominator(
                    index as int,
                    1,
                    self.nv as int,
                );
            }
            (index % self.nu, (index / self.nv) + 1)
        }
    }

    fn point_count(&self) -> (r: usize) {
        proof {
            use_type_invariant(self);
            assert((self.nv - 1) * self.nu <= self.nu * self.nv) by (nonlinear_arith)
                requires
                    self.nv >= 1,
            ;
        }
        (self.nv - 1) * self.nu + 2
    }
}

impl PolygonGenerator for UVSphere {
    type Output = Polygon<(usize, usize)>;

    open spec fn polygon_at(&self, index: int) -> Polygon<(usize, usize)> {
        self.polygon_of(
            index % (self.meridians() as int),
            index / (self.meridians() as int),
            |u: int, v: int| (u as usize, v as usize),
        )
    }

    open spec fn polygon_total(&self) -> nat {
        self.meridians() * self.parallels()
    }

    fn spatial_polygon(&self, index: usize) -> (r: Polygon<(usize, usize)>) {
        proof {
            use_type_invariant(self);
            self.lemma_polygon_place(index as int);
        }
        let (u, v) = self.map_polygon_index(index);
        let low = (u, v);
        let high = (u + 1, v + 1);
        if v == 0 {
            Polygon::Triangle(Triangle::new(low, (u, v + 1), high))
        } else if v == self.nv - 1 {
            Polygon::Triangle(Triangle::new(high, (u + 1, v), low))
        } else {
            Polygon::Quad(Quad::new(low, (u, v + 1), high, (u + 1, v)))
        }
    }

    fn polygon_count(&self) -> (r: usize) {
        proof {
            use_type_invariant(self);
        }
        self.nu * self.nv
    }
}

impl IndexedPolygonGenerator for UVSphere {
    type Output = Polygon<usize>;

    open spec fn indexed_polygon_at(&self, index: int) -> Polygon<usize> {
        self.polygon_of(
            index % (self.meridians() as int),
            index / (self.meridians() as int),
            |u: int, v: int| self.point_index(u, v) as usize,
        )
    }

    fn indexed_polygon(&self, index: usize) -> (r: Polygon<usize>) {
        proof {
            use_type_invariant(self);
            self.lemma_polygon_place(index as int);
        }
        let (u, v) = self.map_polygon_index(index);
        let low = self.indexed_point(u, v);
        let high = self.indexed_point(u + 1, v + 1);
        if v == 0 {
            Polygon::Triangle(Triangle::new(low, self.indexed_point(u, v + 1), high))
        } else if v == self.nv - 1 {
            Polygon::Triangle(Triangle::new(high, self.indexed_point(u + 1, v), low))
        } else {
            Polygon::Quad(
                Quad::new(low, self.indexed_point(u, v + 1), high, self.indexed_point(u + 1, v)),
            )
        }
    }
}

/// A polygon of a band between two parallels is the quad of the grid cell
/// at its place `(u, v)`: its corners are the places `(u, v)`, `(u, v + 1)`,
/// `(u + 1, v + 1)` and `(u + 1, v)`, in that cycle.
pub proof fn lemma_band_quad_places(sphere: UVSphere, index: int)
    requires
        sphere.valid(),
        0 <= index < sphere.meridians() * sphere.parallels(),
        0 < index / (sphere.meridians() as int) < sphere.parallels() - 1,
    ensures
        ({
            let u = index % (sphere.meridians() as int);
            let v = index / (sphere.meridians() as int);
            sphere.polygon_at(index) == Polygon::Quad(
                Quad {
                    a: (u as usize, v as usize),
                    b: (u as usize, (v + 1) as usize),
                    c: ((u + 1) as usize, (v + 1) as usize),
                    d: ((u + 1) as usize, v as usize),
                },
            )
        }),
{
}

/// The four corners of a band quad are four different points of the sphere:
/// its point indices are pairwise distinct.
pub proof fn lemma_band_quad_indices_distinct(sphere: UVSphere, index: int)
    requires
        sphere.valid(),
        0 <= index < sphere.meridians() * sphere.parallels(),
        0 < index / (sphere.meridians() as int) < sphere.parallels() - 1,
    ensures
        sphere.indexed_polygon_at(index) is Quad,
        ({
            let q = sphere.indexed_polygon_at(index)->Quad_0;
            &&& q.a != q.b
            &&& q.a != q.c
            &&& q.a != q.d
            &&& q.b != q.c
            &&& q.b != q.d
            &&& q.c != q.d
        }),
{
    let nu = sphere.nu as int;
    let nv = sphere.nv as int;
    let u = index % nu;
    let v = index / nu;
    sphere.lemma_polygon_place(index);
    let w = (u + 1) % nu;
    assert(0 <= w < nu);
    if u + 1 < nu {
        vstd::arithmetic::div_mod::lemma_small_mod((u + 1) as nat, nu as nat);
    } else {
        vstd::arithmetic::div_mod::lemma_mod_self_0(nu);
    }
    assert(u % nu == u) by {
        vstd::arithmetic::div_mod::lemma_small_mod(u as nat, nu as nat);
    }
    lemma_point_index_in_range(sphere, u, v);
    lemma_point_index_in_range(sphere, u, v + 1);
    lemma_point_index_in_range(sphere, u + 1, v);
    lemma_point_index_in_range(sphere, u + 1, v + 1);
    let r0 = (v - 1) * nu;
    let r1 = v * nu;
    assert(r1 == r0 + nu) by (nonlinear_arith)
        requires
            r0 == (v - 1) * nu,
            r1 == v * nu,
    ;
    assert(sphere.point_index(u, v) == r0 + u + 1);
    assert(sphere.point_index(u + 1, v) == r0 + w + 1);
    assert(sphere.point_index(u, v + 1) == r1 + u + 1);
    assert(sphere.point_index(u + 1, v + 1) == r1 + w + 1);
    assert(w != u);
    assert((nv - 1) * nu <= nu * nv) by (nonlinear_arith)
        requires
            nv >= 1,
            nu >= 0,
    ;
    assert(sphere.point_total() <= usize::MAX);
    let q = sphere.indexed_polygon_at(index)->Quad_0;
    assert(q.a == sphere.point_index(u, v) as usize);
    assert(q.b == sphere.point_index(u, v + 1) as usize);
    assert(q.c == sphere.point_index(u + 1, v + 1) as usize);
    assert(q.d == sphere.point_index(u + 1, v) as usize);
}

/// A polygon at a pole is a triangle of the pole and two neighbouring points
/// of the nearest parallel: the polygons at `v == 0` have the places
/// `(u, 0)`, `(u, 1)`, `(u + 1, 1)`, those at the last row `(u + 1, v + 1)`,
/// `(u + 1, v)`, `(u, v)`; the three point indices are pairwise distinct.
pub proof fn lemma_pole_triangles(sphere: UVSphere, index: int)
    requires
        sphere.valid(),
        0 <= index < sphere.meridians() * sphere.parallels(),
    ensures
        ({
            let u = index % (sphere.meridians() as int);
            let v = index / (sphere.meridians() as int);
            &&& v == 0 ==> sphere.polygon_at(index) == Polygon::Triangle(
                Triangle {
                    a: (u as usize, 0usize),
                    b: (u as usize, 1usize),
                    c: ((u + 1) as usize, 1usize),
                },
            )
            &&& v == sphere.parallels() - 1 ==> sphere.polygon_at(index) == Polygon::Triangle(
                Triangle {
                    a: ((u + 1) as usize, (v + 1) as usize),
                    b: ((u + 1) as usize, v as usize),
                    c: (u as usize, v as usize),
                },
            )
        }),
        (index / (sphere.meridians() as int) == 0 || index / (sphere.meridians() as int)
            == sphere.parallels() - 1) ==> {
            &&& sphere.indexed_polygon_at(index) is Triangle
            &&& sphere.indexed_polygon_at(index)->Triangle_0.a != sphere.indexed_polygon_at(
                index,
            )->Triangle_0.b
            &&& sphere.indexed_polygon_at(index)->Triangle_0.a != sphere.indexed_polygon_at(
                index,
            )->Triangle_0.c
            &&& sphere.indexed_polygon_at(index)->Triangle_0.b != sphere.indexed_polygon_at(
                index,
            )->Triangle_0.c
        },
{
    let nu = sphere.nu as int;
    let nv = sphere.nv as int;
    let u = index % nu;
    let v = index / nu;
    sphere.lemma_polygon_place(index);
    let w = (u + 1) % nu;
    if u + 1 < nu {
        vstd::arithmetic::div_mod::lemma_small_mod((u + 1) as nat, nu as nat);
    } else {
        vstd::arithmetic::div_mod::lemma_mod_self_0(nu);
    }
    assert(u % nu == u) by {
        vstd::arithmetic::div_mod::lemma_small_mod(u as nat, nu as nat);
    }
    assert((nv - 1) * nu <= nu * nv) by (nonlinear_arith)
        requires
            nv >= 1,
            nu >= 0,
    ;
    assert(sphere.point_total() <= usize::MAX);
    if v == 0 || v == nv - 1 {
        lemma_point_index_in_range(sphere, u, v);
        lemma_point_index_in_range(sphere, u, v + 1);
        lemma_point_index_in_range(sphere, u + 1, v);
        lemma_point_index_in_range(sphere, u + 1, v + 1);
        let r = (v - 1) * nu;
        if v == nv - 1 {
            assert(r + nu == (nv - 1) * nu) by (nonlinear_arith)
                requires
                    r == (v - 1) * nu,
                    v == nv - 1,
            ;
            assert(r >= 0) by (nonlinear_arith)
                requires
                    r == (v - 1) * nu,
                    v >= 1,
                    nu >= 0,
            ;
        }
        let t = sphere.indexed_polygon_at(index)->Triangle_0;
        if v == 0 {
            assert(t.a == sphere.point_index(u, v) as usize);
            assert(t.b == sphere.point_index(u, v + 1) as usize);
            assert(t.c == sphere.point_index(u + 1, v + 1) as usize);
        } else {
            assert(t.a == sphere.point_index(u + 1, v + 1) as usize);
            assert(t.b == sphere.point_index(u + 1, v) as usize);
            assert(t.c == sphere.point_index(u, v) as usize);
        }
    }
}

/// Every place on the grid, the poles included, has the index of a point of
/// the sphere.
proof fn lemma_point_index_in_range(sphere: UVSphere, u: int, v: int)
    requires
        sphere.valid(),
        0 <= u,
        0 <= v <= sphere.parallels(),
    ensures
        0 <= sphere.point_index(u, v) < sphere.point_total(),
{
    let nu = sphere.nu as int;
    let nv = sphere.nv as int;
    if 0 < v < nv {
        let k = u % nu;
        assert((v - 1) * nu + k + 1 <= (nv - 1) * nu) by (nonlinear_arith)
            requires
                1 <= v <= nv - 1,
                0 <= k < nu,
        ;
        assert(0 <= (v - 1) * nu) by (nonlinear_arith)
            requires
                1 <= v,
                0 <= nu,
        ;
    }
    assert(0 <= (nv - 1) * nu) by (nonlinear_arith)
        requires
            1 <= nv,
            0 <= nu,
    ;
}

/// Every corner of every indexed polygon of a sphere is the index of one of
/// its points.
pub proof fn lemma_indexed_polygon_in_range(sphere: UVSphere, index: int, corner: int)
    requires
        sphere.valid(),
        0 <= index < sphere.polygon_total(),
        0 <= corner < sphere.indexed_polygon_at(index).point_seq().len(),
    ensures
        sphere.indexed_polygon_at(index).point_seq()[corner] < sphere.point_total(),
{
    let nu = sphere.nu as int;
    sphere.lemma_polygon_place(index);
    let u = index % nu;
    let v = index / nu;
    lemma_point_index_in_range(sphere, u, v);
    lemma_point_index_in_range(sphere, u, v + 1);
    lemma_point_index_in_range(sphere, u + 1, v);
    lemma_point_index_in_range(sphere, u + 1, v + 1);
    assert(sphere.point_total() <= usize::MAX) by (nonlinear_arith)
        requires
            sphere.nu * sphere.nv + sphere.nu + 2 <= usize::MAX,
            sphere.nv >= 1,
            sphere.point_total() == (sphere.nv - 1) * sphere.nu + 2,
    ;
}

} // verus!
