//! Tessellation of polygons: subdivision into polygons and cutting quads
//! into triangles. Subdivision here works each round as a stack, from the
//! last polygon to the first, so the pieces of a round come in reverse order
//! of the polygons they were cut from.
use vstd::prelude::*;

use crate::math;
use crate::mesh::decompose::{
    concat,
    lemma_concat_push,
    quad_quarters,
    quad_tetrahedrons,
    split_all,
    triangle_halves,
};
use crate::mesh::primitive::{Polygon, Polygonal, Quad, Triangle};

verus! {

/// Values that can be interpolated, as tessellation needs.
pub trait Interpolate: math::Interpolate {

}

impl<T: math::Interpolate> Interpolate for T {

}

/// Each item of `s` replaced by its pieces under `g`, the last item first.
pub open spec fn split_all_reversed<P>(g: spec_fn(P) -> Seq<P>, s: Seq<P>) -> Seq<P> {
    concat(s.reverse().map_values(g))
}

/// `split_all_reversed` applied `n` times.
pub open spec fn split_times_reversed<P>(g: spec_fn(P) -> Seq<P>, n: nat, s: Seq<P>) -> Seq<P>
    decreases n,
{
    if n == 0 {
        s
    } else {
        split_all_reversed(g, split_times_reversed(g, (n - 1) as nat, s))
    }
}

/// Applies `f` to `polygon` and then, `n - 1` times more, to every piece,
/// each round taking the pieces from the last to the first.
fn n_map_polygon<P, F: Fn(P) -> Vec<P>>(
    n: usize,
    polygon: P,
    f: F,
    Ghost(g): Ghost<spec_fn(P) -> Seq<P>>,
) -> (r: Vec<P>)
    requires
        forall|p: P| #[trigger] f.requires((p,)),
        forall|p: P, q: Vec<P>| f.ensures((p,), q) ==> q@ == g(p),
    ensures
        r@ == split_times_reversed(g, n as nat, seq![polygon]),
{
    let mut transformed = Vec::new();
    transformed.push(polygon);
    assert(transformed@ =~= seq![polygon]);
    let mut round: usize = 0;
    while round < n
        invariant
            round <= n,
            transformed@ == split_times_reversed(g, round as nat, seq![polygon]),
            forall|p: P| #[trigger] f.requires((p,)),
            forall|p: P, q: Vec<P>| f.ensures((p,), q) ==> q@ == g(p),
        decreases n - round,
    {
        let ghost before = transformed@;
        let mut queued = Vec::new();
        queued.append(&mut transformed);
        assert(queued@ =~= before);
        assert(before.subrange(before.len() as int, before.len() as int).reverse().map_values(g)
            =~= Seq::<Seq<P>>::empty());
        while queued.len() > 0
            invariant
                queued@ == before.subrange(0, queued.len() as int),
                queued.len() <= before.len(),
                transformed@ == concat(
                    before.subrange(queued.len() as int, before.len() as int).reverse().map_values(
                        g,
                    ),
                ),
                forall|p: P| #[trigger] f.requires((p,)),
                forall|p: P, q: Vec<P>| f.ensures((p,), q) ==> q@ == g(p),
            decreases queued.len(),
        {
            let ghost k = queued.len() as int;
            let p = queued.pop().unwrap();
            let mut pieces = f(p);
            proof {
                let rest = before.subrange(k, before.len() as int);
                let more = before.subrange(k - 1, before.len() as int);
                assert(more.reverse() =~= rest.reverse().push(before[k - 1]));
                assert(more.reverse().map_values(g) =~= rest.reverse().map_values(g).push(
                    g(before[k - 1]),
                ));
                lemma_concat_push(rest.reverse().map_values(g), g(before[k - 1]));
            }
            transformed.append(&mut pieces);
            assert(queued@ =~= before.subrange(0, queued.len() as int));
        }
        assert(before.subrange(0, before.len() as int) =~= before);
        round = round + 1;
    }
    transformed
}

/// Polygons that can be cut into smaller polygons.
pub trait PolygonalExt<T>: Polygonal {
    /// The polygons after `n` rounds of cutting.
    spec fn subdivision_seq(&self, n: nat) -> Seq<Polygon<T>>;

    fn into_subdivisions(self, n: usize) -> (r: Vec<Polygon<T>>)
        ensures
            r@ == self.subdivision_seq(n as nat),
    ;
}

/// Quads that can be cut into triangles around a midpoint.
pub trait QuadExt<T> {
    /// The triangles around the midpoint.
    spec fn tetrahedron_triangles(&self) -> Seq<Triangle<T>>;

    fn into_tetrahedrons(self) -> (r: Vec<Triangle<T>>)
        ensures
            r@ == self.tetrahedron_triangles(),
    ;
}

impl<T: Copy + Interpolate> PolygonalExt<T> for Triangle<T> {
    open spec fn subdivision_seq(&self, n: nat) -> Seq<Polygon<T>> {
        split_times_reversed(|t: Triangle<T>| triangle_halves(t), n, seq![*self]).map_values(
            |t: Triangle<T>| Polygon::Triangle(t),
        )
    }

    fn into_subdivisions(self, n: usize) -> (r: Vec<Polygon<T>>) {
        let halves = |triangle: Triangle<T>| -> (r: Vec<Triangle<T>>)
            ensures
                r@ == triangle_halves(triangle),
            {
                let Triangle { a, b, c } = triangle;
                let ac = a.midpoint(&c);
                let mut pieces = Vec::new();
                pieces.push(Triangle::new(b, ac, a));
                pieces.push(Triangle::new(c, ac, b));
                assert(pieces@ =~= triangle_halves(triangle));
                pieces
            };
        let triangles = n_map_polygon(n, self, halves, Ghost(|t: Triangle<T>| triangle_halves(t)));
        let mut polygons = Vec::new();
        let mut i: usize = 0;
        while i < triangles.len()
            invariant
                i <= triangles.len(),
                polygons@ =~= triangles@.subrange(0, i as int).map_values(
                    |t: Triangle<T>| Polygon::Triangle(t),
                ),
            decreases triangles.len() - i,
        {
            polygons.push(Polygon::Triangle(triangles[i]));
            i = i + 1;
        }
        assert(triangles@.subrange(0, triangles.len() as int) =~= triangles@);
        polygons
    }
}

impl<T: Copy + Interpolate> PolygonalExt<T> for Quad<T> {
    open spec fn subdivision_seq(&self, n: nat) -> Seq<Polygon<T>> {
        split_times_reversed(|q: Quad<T>| quad_quarters(q), n, seq![*self]).map_values(
            |q: Quad<T>| Polygon::Quad(q),
        )
    }

    fn into_subdivisions(self, n: usize) -> (r: Vec<Polygon<T>>) {
        let quarters = |quad: Quad<T>| -> (r: Vec<Quad<T>>)
            ensures
                r@ == quad_quarters(quad),
            {
                let Quad { a, b, c, d } = quad;
                let ab = a.midpoint(&b);
                let bc = b.midpoint(&c);
                let cd = c.midpoint(&d);
                let da = d.midpoint(&a);
                let ac = a.midpoint(&c);
                let mut pieces = Vec::new();
                pieces.push(Quad::new(a, ab, ac, da));
                pieces.push(Quad::new(ab, b, bc, ac));
                pieces.push(Quad::new(ac, bc, c, cd));
                pieces.push(Quad::new(da, ac, cd, d));
                assert(pieces@ =~= quad_quarters(quad));
                pieces
            };
        let quads = n_map_polygon(n, self, quarters, Ghost(|q: Quad<T>| quad_quarters(q)));
        let mut polygons = Vec::new();
        let mut i: usize = 0;
        while i < quads.len()
            invariant
                i <= quads.len(),
                polygons@ =~= quads@.subrange(0, i as int).map_values(|q: Quad<T>| Polygon::Quad(q)),
            decreases quads.len() - i,
        {
            polygons.push(Polygon::Quad(quads[i]));
            i = i + 1;
        }
        assert(quads@.subrange(0, quads.len() as int) =~= quads@);
        polygons
    }
}

impl<T: Copy + Interpolate> PolygonalExt<T> for Polygon<T> {
    open spec fn subdivision_seq(&self, n: nat) -> Seq<Polygon<T>> {
        match *self {
            Polygon::Triangle(triangle) => triangle.subdivision_seq(n),
            Polygon::Quad(quad) => quad.subdivision_seq(n),
        }
    }

    fn into_subdivisions(self, n: usize) -> (r: Vec<Polygon<T>>) {
        match self {
            Polygon::Triangle(triangle) => triangle.into_subdivisions(n),
            Polygon::Quad(quad) => quad.into_subdivisions(n),
        }
    }
}

impl<T: Copy + Interpolate> QuadExt<T> for Quad<T> {
    open spec fn tetrahedron_triangles(&self) -> Seq<Triangle<T>> {
        quad_tetrahedrons(*self)
    }

    fn into_tetrahedrons(self) -> (r: Vec<Triangle<T>>) {
        let Quad { a, b, c, d } = self;
        let ac = a.midpoint(&c);
        let mut triangles = Vec::new();
        triangles.push(Triangle::new(a, b, ac));
        triangles.push(Triangle::new(b, c, ac));
        triangles.push(Triangle::new(c, d, ac));
        triangles.push(Triangle::new(d, a, ac));
        assert(triangles@ =~= quad_tetrahedrons(self));
        triangles
    }
}

/// Replaces each polygon of `input`, in order, by its subdivisions.
fn into_subdivisions<P: PolygonalExt<T>, T>(input: Vec<P>, n: usize) -> (r: Vec<Polygon<T>>)
    ensures
        r@ == split_all(|p: P| p.subdivision_seq(n as nat), input@),
{
    let ghost g = |p: P| p.subdivision_seq(n as nat);
    let ghost before = input@;
    let mut rest = input;
    let mut output: Vec<Polygon<T>> = Vec::new();
    let ghost mut j: int = 0;
    assert(before.subrange(0, 0).map_values(g) =~= Seq::<Seq<Polygon<T>>>::empty());
    while rest.len() > 0
        invariant
            0 <= j <= before.len(),
            rest@ == before.subrange(j, before.len() as int),
            output@ == concat(before.subrange(0, j).map_values(g)),
            g == (|p: P| p.subdivision_seq(n as nat)),
        decreases rest.len(),
    {
        let p = rest.remove(0);
        let mut pieces = p.into_subdivisions(n);
        proof {
            assert(before.subrange(0, j + 1).map_values(g) =~= before.subrange(0, j).map_values(
                g,
            ).push(g(before[j])));
            lemma_concat_push(before.subrange(0, j).map_values(g), g(before[j]));
        }
        output.append(&mut pieces);
        proof {
            j = j + 1;
            assert(rest@ =~= before.subrange(j, before.len() as int));
        }
    }
    assert(before.subrange(0, before.len() as int) =~= before);
    output
}

/// Sequences of polygons that can all be subdivided.
pub trait TessellatePolygon<P, Q>: Sized {
    /// The polygons after subdividing each `n` times, in order.
    spec fn subdivide_seq(&self, n: nat) -> Seq<Q>;

    fn subdivide(self, n: usize) -> (r: Vec<Q>)
        ensures
            r@ == self.subdivide_seq(n as nat),
    ;
}

impl<P: PolygonalExt<T>, T> TessellatePolygon<P, Polygon<T>> for Vec<P> {
    open spec fn subdivide_seq(&self, n: nat) -> Seq<Polygon<T>> {
        split_all(|p: P| p.subdivision_seq(n), self@)
    }

    fn subdivide(self, n: usize) -> (r: Vec<Polygon<T>>) {
        into_subdivisions(self, n)
    }
}

/// Sequences of quads that can all be cut into triangles around midpoints.
pub trait TessellateQuad<T>: Sized {
    /// The triangles of all the quads, in order.
    spec fn tetrahedron_seq(&self) -> Seq<Triangle<T>>;

    fn tetrahedrons(self) -> (r: Vec<Triangle<T>>)
        ensures
            r@ == self.tetrahedron_seq(),
    ;
}

impl<T: Copy + Interpolate> TessellateQuad<T> for Vec<Quad<T>> {
    open spec fn tetrahedron_seq(&self) -> Seq<Triangle<T>> {
        split_all(|q: Quad<T>| quad_tetrahedrons(q), self@)
    }

    fn tetrahedrons(self) -> (r: Vec<Triangle<T>>) {
        let ghost g = |q: Quad<T>| quad_tetrahedrons(q);
        let ghost before = self@;
        let mut rest = self;
        let mut output: Vec<Triangle<T>> = Vec::new();
        let ghost mut j: int = 0;
        assert(before.subrange(0, 0).map_values(g) =~= Seq::<Seq<Triangle<T>>>::empty());
        while rest.len() > 0
            invariant
                0 <= j <= before.len(),
                rest@ == before.subrange(j, before.len() as int),
                output@ == concat(before.subrange(0, j).map_values(g)),
                g == (|q: Quad<T>| quad_tetrahedrons(q)),
            decreases rest.len(),
        {
            let q = rest.remove(0);
            let mut pieces = QuadExt::into_tetrahedrons(q);
            proof {
                assert(before.subrange(0, j + 1).map_values(g) =~= before.subrange(
                    0,
                    j,
                ).map_values(g).push(g(before[j])));
                lemma_concat_push(before.subrange(0, j).map_values(g), g(before[j]));
            }
            output.append(&mut pieces);
            proof {
                j = j + 1;
                assert(rest@ =~= before.subrange(j, before.len() as int));
            }
        }
        assert(before.subrange(0, before.len() as int) =~= before);
        output
    }
}

} // verus!
