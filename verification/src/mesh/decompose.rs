//! Decomposition of primitives into points, lines, triangles and smaller
//! polygons, one primitive or a whole sequence of them at a time.
use vstd::prelude::*;
use vstd::arithmetic::power::pow;

use crate::math;
use crate::mesh::primitive::{Line, Polygon, Polygonal, Primitive, Quad, Triangle};

verus! {

/// The sequences of `s` joined end to end.
pub open spec fn concat<T>(s: Seq<Seq<T>>) -> Seq<T>
    decreases s.len(),
{
    if s.len() == 0 {
        Seq::empty()
    } else {
        concat(s.drop_last()) + s.last()
    }
}

/// Joining one more sequence appends it.
pub proof fn lemma_concat_push<T>(s: Seq<Seq<T>>, x: Seq<T>)
    ensures
        concat(s.push(x)) == concat(s) + x,
{
    assert(s.push(x).drop_last() =~= s);
}

/// Joining sequences of `k` items each gives `k` items per sequence.
pub proof fn lemma_concat_len<T>(s: Seq<Seq<T>>, k: nat)
    requires
        forall|i: int| 0 <= i < s.len() ==> (#[trigger] s[i]).len() == k,
    ensures
        concat(s).len() == k * s.len(),
    decreases s.len(),
{
    if s.len() > 0 {
        lemma_concat_len(s.drop_last(), k);
        assert(s.last().len() == k);
        assert(k * (s.len() - 1) + k == k * s.len()) by (nonlinear_arith);
    }
}

/// Values that can be interpolated, as subdivision needs.
pub trait Interpolate: math::Interpolate {

}

impl<T: math::Interpolate> Interpolate for T {

}

/// Primitives that give up their points.
pub trait IntoPoints: Primitive {
    fn into_points(self) -> (r: Vec<Self::Point>)
        ensures
            r@ == self.point_seq(),
    ;
}

impl<T> IntoPoints for Line<T> {
    fn into_points(self) -> (r: Vec<T>) {
        let Line { a, b } = self;
        let mut points = Vec::new();
        points.push(a);
        points.push(b);
        assert(points@ =~= self.point_seq());
        points
    }
}

impl<T> IntoPoints for Triangle<T> {
    fn into_points(self) -> (r: Vec<T>) {
        let Triangle { a, b, c } = self;
        let mut points = Vec::new();
        points.push(a);
        points.push(b);
        points.push(c);
        assert(points@ =~= self.point_seq());
        points
    }
}

impl<T> IntoPoints for Quad<T> {
    fn into_points(self) -> (r: Vec<T>) {
        let Quad { a, b, c, d } = self;
        let mut points = Vec::new();
        points.push(a);
        points.push(b);
        points.push(c);
        points.push(d);
        assert(points@ =~= self.point_seq());
        points
    }
}

impl<T> IntoPoints for Polygon<T> {
    fn into_points(self) -> (r: Vec<T>) {
        match self {
            Polygon::Triangle(triangle) => triangle.into_points(),
            Polygon::Quad(quad) => quad.into_points(),
        }
    }
}

/// The edges of a closed ring of points: each point to the next, and the last
/// back to the first.
pub open spec fn ring_lines<T>(s: Seq<T>) -> Seq<Line<T>> {
    Seq::new(s.len(), |i: int| Line { a: s[i], b: s[(i + 1) % (s.len() as int)] })
}

/// Primitives that give up their edges.
pub trait IntoLines: Primitive {
    /// The edges of the primitive, in order.
    spec fn line_seq(&self) -> Seq<Line<Self::Point>>;

    fn into_lines(self) -> (r: Vec<Line<Self::Point>>)
        ensures
            r@ == self.line_seq(),
    ;
}

impl<T> IntoLines for Line<T> {
    open spec fn line_seq(&self) -> Seq<Line<T>> {
        seq![*self]
    }

    fn into_lines(self) -> (r: Vec<Line<T>>) {
        let mut lines = Vec::new();
        lines.push(self);
        assert(lines@ =~= seq![self]);
        lines
    }
}

impl<T: Copy> IntoLines for Triangle<T> {
    open spec fn line_seq(&self) -> Seq<Line<T>> {
        ring_lines(self.point_seq())
    }

    fn into_lines(self) -> (r: Vec<Line<T>>) {
        let Triangle { a, b, c } = self;
        let mut lines = Vec::new();
        lines.push(Line::new(a, b));
        lines.push(Line::new(b, c));
        lines.push(Line::new(c, a));
        assert(lines@ =~= self.line_seq());
        lines
    }
}

impl<T: Copy> IntoLines for Quad<T> {
    open spec fn line_seq(&self) -> Seq<Line<T>> {
        ring_lines(self.point_seq())
    }

    fn into_lines(self) -> (r: Vec<Line<T>>) {
        let Quad { a, b, c, d } = self;
        let mut lines = Vec::new();
        lines.push(Line::new(a, b));
        lines.push(Line::new(b, c));
        lines.push(Line::new(c, d));
        lines.push(Line::new(d, a));
        assert(lines@ =~= self.line_seq());
        lines
    }
}

impl<T: Copy> IntoLines for Polygon<T> {
    open spec fn line_seq(&self) -> Seq<Line<T>> {
        ring_lines(self.point_seq())
    }

    fn into_lines(self) -> (r: Vec<Line<T>>) {
        match self {
            Polygon::Triangle(triangle) => triangle.into_lines(),
            Polygon::Quad(quad) => quad.into_lines(),
        }
    }
}

/// Polygons that give up their triangles.
pub trait IntoTriangles: Polygonal {
    fn into_triangles(self) -> (r: Vec<Triangle<Self::Point>>)
        ensures
            r@ == self.triangle_seq(),
    ;
}

impl<T> IntoTriangles for Triangle<T> {
    fn into_triangles(self) -> (r: Vec<Triangle<T>>) {
        let mut triangles = Vec::new();
        triangles.push(self);
        assert(triangles@ =~= self.triangle_seq());
        triangles
    }
}

impl<T: Copy> IntoTriangles for Quad<T> {
    fn into_triangles(self) -> (r: Vec<Triangle<T>>) {
        let Quad { a, b, c, d } = self;
        let mut triangles = Vec::new();
        triangles.push(Triangle::new(a, b, c));
        triangles.push(Triangle::new(c, d, a));
        assert(triangles@ =~= self.triangle_seq());
        triangles
    }
}

impl<T: Copy> IntoTriangles for Polygon<T> {
    fn into_triangles(self) -> (r: Vec<Triangle<T>>) {
        match self {
            Polygon::Triangle(triangle) => triangle.into_triangles(),
            Polygon::Quad(quad) => quad.into_triangles(),
        }
    }
}

/// Each item of `s` replaced by its pieces under `g`, in order.
pub open spec fn split_all<P, Q>(g: spec_fn(P) -> Seq<Q>, s: Seq<P>) -> Seq<Q> {
    concat(s.map_values(g))
}

/// `split_all` applied `n` times.
pub open spec fn split_times<P>(g: spec_fn(P) -> Seq<P>, n: nat, s: Seq<P>) -> Seq<P>
    decreases n,
{
    if n == 0 {
        s
    } else {
        split_all(g, split_times(g, (n - 1) as nat, s))
    }
}

/// Splitting each item into `k` pieces `n` times multiplies the count by `k^n`.
pub proof fn lemma_split_times_len<P>(g: spec_fn(P) -> Seq<P>, n: nat, s: Seq<P>, k: nat)
    requires
        forall|p: P| (#[trigger] g(p)).len() == k,
    ensures
        split_times(g, n, s).len() == pow(k as int, n) * s.len(),
    decreases n,
{
    vstd::arithmetic::power::lemma_pow0(k as int);
    if n > 0 {
        lemma_split_times_len(g, (n - 1) as nat, s, k);
        let t = split_times(g, (n - 1) as nat, s);
        let m = t.map_values(g);
        assert forall|i: int| 0 <= i < m.len() implies (#[trigger] m[i]).len() == k by {
            assert(g(t[i]).len() == k);
        }
        lemma_concat_len(m, k);
        vstd::arithmetic::power::lemma_pow_adds(k as int, (n - 1) as nat, 1);
        vstd::arithmetic::power::lemma_pow1(k as int);
        assert(k * (pow(k as int, (n - 1) as nat) * s.len()) == (pow(k as int, (n - 1) as nat) * k)
            * s.len()) by (nonlinear_arith);
    }
}

/// Replaces each item of `input`, in order, by the items that `f` gives for
/// it: the result is the pieces of the first item, then those of the second,
/// and so on (`f` is called once for each item, in order).
pub fn decompose<P, Q, F: Fn(P) -> Vec<Q>>(input: Vec<P>, f: &F, Ghost(g): Ghost<spec_fn(P) -> Seq<Q>>) -> (r: Vec<Q>)
    requires
        forall|p: P| #[trigger] f.requires((p,)),
        forall|p: P, q: Vec<Q>| f.ensures((p,), q) ==> q@ == g(p),
    ensures
        r@ == split_all(g, input@),
{
    let ghost before = input@;
    let mut rest = input;
    let mut output: Vec<Q> = Vec::new();
    let ghost mut j: int = 0;
    assert(before.subrange(0, 0).map_values(g) =~= Seq::<Seq<Q>>::empty());
    while rest.len() > 0
        invariant
            0 <= j <= before.len(),
            rest@ == before.subrange(j, before.len() as int),
            output@ == concat(before.subrange(0, j).map_values(g)),
            forall|p: P| #[trigger] f.requires((p,)),
            forall|p: P, q: Vec<Q>| f.ensures((p,), q) ==> q@ == g(p),
        decreases rest.len(),
    {
        let p = rest.remove(0);
        let mut pieces = f(p);
        proof {
            assert(before.subrange(0, j + 1).map_values(g) =~= before.subrange(0, j).map_values(
                g,
            ).push(g(before[j])));
            lemma_concat_push(before.subrange(0, j).map_values(g), g(before[j]));
        }
        output.append(&mut pieces);
        proof {
            j = j + 1;
            assert(rest@ =~= before.subrange(j, before.len() as int));
        }
    }
    assert(before.subrange(0, before.len() as int) =~= before);
    output
}

/// Applies `f` to `polygon` and then, `n - 1` times more, to every piece.
fn n_map_polygon<P, F: Fn(P) -> Vec<P>>(
    n: usize,
    polygon: P,
    f: F,
    Ghost(g): Ghost<spec_fn(P) -> Seq<P>>,
) -> (r: Vec<P>)
    requires
        forall|p: P| #[trigger] f.requires((p,)),
        forall|p: P, q: Vec<P>| f.ensures((p,), q) ==> q@ == g(p),
    ensures
        r@ == split_times(g, n as nat, seq![polygon]),
{
    let mut polygons = Vec::new();
    polygons.push(polygon);
    assert(polygons@ =~= seq![polygon]);
    let mut i: usize = 0;
    while i < n
        invariant
            i <= n,
            polygons@ == split_times(g, i as nat, seq![polygon]),
            forall|p: P| #[trigger] f.requires((p,)),
            forall|p: P, q: Vec<P>| f.ensures((p,), q) ==> q@ == g(p),
        decreases n - i,
    {
        polygons = decompose(polygons, &f, Ghost(g));
        i = i + 1;
    }
    polygons
}

/// The two halves of a triangle, cut from `b` to the midpoint of `a` and `c`.
pub open spec fn triangle_halves<T: math::Interpolate>(t: Triangle<T>) -> Seq<Triangle<T>> {
    let ac = t.a.midpoint_spec(&t.c);
    seq![Triangle { a: t.b, b: ac, c: t.a }, Triangle { a: t.c, b: ac, c: t.b }]
}

/// Whether `p` is a corner of `t`.
pub open spec fn has_corner<T>(t: Triangle<T>, p: T) -> bool {
    t.a == p || t.b == p || t.c == p
}

/// Whether the corners of `t` are pairwise distinct.
pub open spec fn corners_distinct<T>(t: Triangle<T>) -> bool {
    t.a != t.b && t.a != t.c && t.b != t.c
}

/// Halving a triangle `(a, b, c)` cuts it from `b` to the midpoint `m` of
/// `a` and `c`: one round of subdivision gives two triangles, both with the
/// corners `b` and `m`, one with `a` and the other with `c`, and no corner
/// but `a`, `b`, `c` and `m`. Where those four are distinct, neither half
/// repeats a corner.
pub proof fn lemma_triangle_halves<T: Copy + Interpolate>(t: Triangle<T>)
    ensures
        ({
            let m = t.a.midpoint_spec(&t.c);
            let h = t.subdivisions(1);
            &&& h == triangle_halves(t)
            &&& h.len() == 2
            &&& forall|k: int| 0 <= k < 2 ==> has_corner(#[trigger] h[k], t.b) && has_corner(h[k], m)
            &&& has_corner(h[0], t.a)
            &&& has_corner(h[1], t.c)
            &&& forall|k: int, p: T|
                0 <= k < 2 && #[trigger] has_corner(h[k], p) ==> p == t.a || p == t.b || p == t.c
                    || p == m
            &&& (t.a != t.b && t.a != t.c && t.b != t.c && m != t.a && m != t.b && m != t.c)
                ==> corners_distinct(h[0]) && corners_distinct(h[1])
        }),
{
    let g = |x: Triangle<T>| triangle_halves(x);
    let s = seq![t];
    assert(split_times(g, 0, s) == s);
    assert(s.map_values(g) =~= seq![triangle_halves(t)]);
    let one = seq![triangle_halves(t)];
    assert(one.drop_last() =~= Seq::<Seq<Triangle<T>>>::empty());
    assert(concat(Seq::<Seq<Triangle<T>>>::empty()) == Seq::<Triangle<T>>::empty());
    assert(one.last() == triangle_halves(t));
    assert(concat(one) == concat(one.drop_last()) + one.last());
    assert(concat(one) =~= triangle_halves(t));
    assert(t.subdivisions(1) == split_all(g, s));
}

/// The four quarters of a quad, cut through the midpoints of its edges and of
/// its diagonal from `a` to `c`.
pub open spec fn quad_quarters<T: math::Interpolate>(q: Quad<T>) -> Seq<Quad<T>> {
    let ab = q.a.midpoint_spec(&q.b);
    let bc = q.b.midpoint_spec(&q.c);
    let cd = q.c.midpoint_spec(&q.d);
    let da = q.d.midpoint_spec(&q.a);
    let ac = q.a.midpoint_spec(&q.c);
    seq![
        Quad { a: q.a, b: ab, c: ac, d: da },
        Quad { a: ab, b: q.b, c: bc, d: ac },
        Quad { a: ac, b: bc, c: q.c, d: cd },
        Quad { a: da, b: ac, c: cd, d: q.d },
    ]
}

/// Whether `p` is a corner of `q`.
pub open spec fn quad_has_corner<T>(q: Quad<T>, p: T) -> bool {
    q.a == p || q.b == p || q.c == p || q.d == p
}

/// Quartering a quad `(a, b, c, d)` gives four quads, the `k`-th holding the
/// `k`-th corner, the midpoints of the two edges that meet there and the
/// midpoint of the diagonal from `a` to `c`; one round of subdivision gives
/// exactly these four.
pub proof fn lemma_quad_quarters<T: Copy + Interpolate>(q: Quad<T>)
    ensures
        ({
            let ab = q.a.midpoint_spec(&q.b);
            let bc = q.b.midpoint_spec(&q.c);
            let cd = q.c.midpoint_spec(&q.d);
            let da = q.d.midpoint_spec(&q.a);
            let ac = q.a.midpoint_spec(&q.c);
            let h = q.subdivisions(1);
            &&& h == quad_quarters(q)
            &&& h.len() == 4
            &&& forall|k: int| 0 <= k < 4 ==> quad_has_corner(#[trigger] h[k], ac)
            &&& quad_has_corner(h[0], q.a) && quad_has_corner(h[0], ab) && quad_has_corner(h[0], da)
            &&& quad_has_corner(h[1], q.b) && quad_has_corner(h[1], ab) && quad_has_corner(h[1], bc)
            &&& quad_has_corner(h[2], q.c) && quad_has_corner(h[2], bc) && quad_has_corner(h[2], cd)
            &&& quad_has_corner(h[3], q.d) && quad_has_corner(h[3], cd) && quad_has_corner(h[3], da)
        }),
{
    let g = |x: Quad<T>| quad_quarters(x);
    let s = seq![q];
    assert(split_times(g, 0, s) == s);
    assert(s.map_values(g) =~= seq![quad_quarters(q)]);
    let one = seq![quad_quarters(q)];
    assert(one.drop_last() =~= Seq::<Seq<Quad<T>>>::empty());
    assert(concat(Seq::<Seq<Quad<T>>>::empty()) == Seq::<Quad<T>>::empty());
    assert(one.last() == quad_quarters(q));
    assert(concat(one) == concat(one.drop_last()) + one.last());
    assert(concat(one) =~= quad_quarters(q));
    assert(q.subdivisions(1) == split_all(g, s));
}

/// Polygons that can be cut into smaller polygons of their own kind.
pub trait IntoSubdivisions: Polygonal {
    /// The pieces after `n` rounds of cutting every piece.
    spec fn subdivisions(&self, n: nat) -> Seq<Self>;

    fn into_subdivisions(self, n: usize) -> (r: Vec<Self>)
        ensures
            r@ == self.subdivisions(n as nat),
    ;
}

impl<T: Copy + Interpolate> IntoSubdivisions for Triangle<T> {
    open spec fn subdivisions(&self, n: nat) -> Seq<Triangle<T>> {
        split_times(|t: Triangle<T>| triangle_halves(t), n, seq![*self])
    }

    fn into_subdivisions(self, n: usize) -> (r: Vec<Triangle<T>>) {
        let halves = |triangle: Triangle<T>| -> (r: Vec<Triangle<T>>)
            ensures
                r@ == triangle_halves(triangle),
            {
                let Triangle { a, b, c } = triangle;
                let ac = a.midpoint(&c);
                let mut pieces = Vec::new();
                pieces.push(Triangle::new(b, ac, a));
                pieces.push(Triangle::new(c, ac, b));
                assert(pieces@ =~= triangle_halves(triangle));
                pieces
            };
        n_map_polygon(n, self, halves, Ghost(|t: Triangle<T>| triangle_halves(t)))
    }
}

impl<T: Copy + Interpolate> IntoSubdivisions for Quad<T> {
    open spec fn subdivisions(&self, n: nat) -> Seq<Quad<T>> {
        split_times(|q: Quad<T>| quad_quarters(q), n, seq![*self])
    }

    fn into_subdivisions(self, n: usize) -> (r: Vec<Quad<T>>) {
        let quarters = |quad: Quad<T>| -> (r: Vec<Quad<T>>)
            ensures
                r@ == quad_quarters(quad),
            {
                let Quad { a, b, c, d } = quad;
                let ab = a.midpoint(&b);
                let bc = b.midpoint(&c);
                let cd = c.midpoint(&d);
                let da = d.midpoint(&a);
                let ac = a.midpoint(&c);
                let mut pieces = Vec::new();
                pieces.push(Quad::new(a, ab, ac, da));
                pieces.push(Quad::new(ab, b, bc, ac));
                pieces.push(Quad::new(ac, bc, c, cd));
                pieces.push(Quad::new(da, ac, cd, d));
                assert(pieces@ =~= quad_quarters(quad));
                pieces
            };
        n_map_polygon(n, self, quarters, Ghost(|q: Quad<T>| quad_quarters(q)))
    }
}

impl<T: Copy + Interpolate> IntoSubdivisions for Polygon<T> {
    open spec fn subdivisions(&self, n: nat) -> Seq<Polygon<T>> {
        match self {
            Polygon::Triangle(triangle) => triangle.subdivisions(n).map_values(
                |t: Triangle<T>| Polygon::Triangle(t),
            ),
            Polygon::Quad(quad) => quad.subdivisions(n).map_values(|q: Quad<T>| Polygon::Quad(q)),
        }
    }

    fn into_subdivisions(self, n: usize) -> (r: Vec<Polygon<T>>) {
        match self {
            Polygon::Triangle(triangle) => {
                let pieces = triangle.into_subdivisions(n);
                let mut polygons = Vec::new();
                let mut i: usize = 0;
                while i < pieces.len()
                    invariant
                        i <= pieces.len(),
                        polygons@ =~= pieces@.subrange(0, i as int).map_values(
                            |t: Triangle<T>| Polygon::Triangle(t),
                        ),
                    decreases pieces.len() - i,
                {
                    polygons.push(Polygon::Triangle(pieces[i]));
                    i = i + 1;
                }
                assert(pieces@.subrange(0, pieces.len() as int) =~= pieces@);
                polygons
            },
            Polygon::Quad(quad) => {
                let pieces = quad.into_subdivisions(n);
                let mut polygons = Vec::new();
                let mut i: usize = 0;
                while i < pieces.len()
                    invariant
                        i <= pieces.len(),
                        polygons@ =~= pieces@.subrange(0, i as int).map_values(
                            |q: Quad<T>| Polygon::Quad(q),
                        ),
                    decreases pieces.len() - i,
                {
                    polygons.push(Polygon::Quad(pieces[i]));
                    i = i + 1;
                }
                assert(pieces@.subrange(0, pieces.len() as int) =~= pieces@);
                polygons
            },
        }
    }
}

/// Cutting a triangle `n` times gives `2^n` triangles.
pub proof fn lemma_triangle_subdivision_count<T: Copy + Interpolate>(triangle: Triangle<T>, n: nat)
    ensures
        triangle.subdivisions(n).len() == pow(2, n),
{
    let g = |t: Triangle<T>| triangle_halves(t);
    assert forall|t: Triangle<T>| (#[trigger] g(t)).len() == 2 by {}
    lemma_split_times_len(g, n, seq![triangle], 2);
    assert(seq![triangle].len() == 1);
    assert(split_times(g, n, seq![triangle]).len() == pow(2, n) * 1);
    assert(triangle.subdivisions(n) == split_times(g, n, seq![triangle]));
}

/// Cutting a quad `n` times gives `4^n` quads.
pub proof fn lemma_quad_subdivision_count<T: Copy + Interpolate>(quad: Quad<T>, n: nat)
    ensures
        quad.subdivisions(n).len() == pow(4, n),
{
    let g = |q: Quad<T>| quad_quarters(q);
    assert forall|q: Quad<T>| (#[trigger] g(q)).len() == 4 by {}
    lemma_split_times_len(g, n, seq![quad], 4);
    assert(seq![quad].len() == 1);
    assert(split_times(g, n, seq![quad]).len() == pow(4, n) * 1);
    assert(quad.subdivisions(n) == split_times(g, n, seq![quad]));
}

/// The four triangles of a quad that meet at the midpoint of its diagonal
/// from `a` to `c`.
pub open spec fn quad_tetrahedrons<T: math::Interpolate>(q: Quad<T>) -> Seq<Triangle<T>> {
    let ac = q.a.midpoint_spec(&q.c);
    seq![
        Triangle { a: q.a, b: q.b, c: ac },
        Triangle { a: q.b, b: q.c, c: ac },
        Triangle { a: q.c, b: q.d, c: ac },
        Triangle { a: q.d, b: q.a, c: ac },
    ]
}

/// Polygons that can be cut into triangles around a midpoint.
pub trait IntoTetrahedrons: Polygonal {
    /// The triangles around the midpoint.
    spec fn tetrahedron_seq(&self) -> Seq<Triangle<Self::Point>>;

    fn into_tetrahedrons(self) -> (r: Vec<Triangle<Self::Point>>)
        ensures
            r@ == self.tetrahedron_seq(),
    ;
}

impl<T: Copy + Interpolate> IntoTetrahedrons for Quad<T> {
    open spec fn tetrahedron_seq(&self) -> Seq<Triangle<T>> {
        quad_tetrahedrons(*self)
    }

    fn into_tetrahedrons(self) -> (r: Vec<Triangle<T>>) {
        let Quad { a, b, c, d } = self;
        let ac = a.midpoint(&c);
        let mut triangles = Vec::new();
        triangles.push(Triangle::new(a, b, ac));
        triangles.push(Triangle::new(b, c, ac));
        triangles.push(Triangle::new(c, d, ac));
        triangles.push(Triangle::new(d, a, ac));
        assert(triangles@ =~= quad_tetrahedrons(self));
        triangles
    }
}

/// Sequences of primitives that give up all their points.
pub trait Points<P: IntoPoints>: Sized {
    /// The primitives of the sequence.
    spec fn primitive_seq(&self) -> Seq<P>;

    fn points(self) -> (r: Vec<P::Point>)
        ensures
            r@ == split_all(|p: P| p.point_seq(), self.primitive_seq()),
    ;
}

impl<P: IntoPoints> Points<P> for Vec<P> {
    open spec fn primitive_seq(&self) -> Seq<P> {
        self@
    }

    fn points(self) -> (r: Vec<P::Point>) {
        let f = |p: P| -> (r: Vec<P::Point>)
            ensures
                r@ == p.point_seq(),
            { p.into_points() };
        decompose(self, &f, Ghost(|p: P| p.point_seq()))
    }
}

/// Sequences of polygons that give up all their triangles.
pub trait Triangulate<P: IntoTriangles>: Sized {
    /// The polygons of the sequence.
    spec fn polygon_seq(&self) -> Seq<P>;

    fn triangulate(self) -> (r: Vec<Triangle<P::Point>>)
        ensures
            r@ == split_all(|p: P| p.triangle_seq(), self.polygon_seq()),
    ;
}

impl<P: IntoTriangles> Triangulate<P> for Vec<P> {
    open spec fn polygon_seq(&self) -> Seq<P> {
        self@
    }

    fn triangulate(self) -> (r: Vec<Triangle<P::Point>>) {
        let f = |p: P| -> (r: Vec<Triangle<P::Point>>)
            ensures
                r@ == p.triangle_seq(),
            { p.into_triangles() };
        decompose(self, &f, Ghost(|p: P| p.triangle_seq()))
    }
}

/// Sequences of polygons that can all be cut into smaller ones.
pub trait Subdivide<P: IntoSubdivisions>: Sized {
    /// The polygons of the sequence.
    spec fn polygon_seq(&self) -> Seq<P>;

    fn subdivide(self, n: usize) -> (r: Vec<P>)
        ensures
            r@ == split_all(|p: P| p.subdivisions(n as nat), self.polygon_seq()),
    ;
}

impl<P: IntoSubdivisions> Subdivide<P> for Vec<P> {
    open spec fn polygon_seq(&self) -> Seq<P> {
        self@
    }

    fn subdivide(self, n: usize) -> (r: Vec<P>) {
        let f = |p: P| -> (r: Vec<P>)
            ensures
                r@ == p.subdivisions(n as nat),
            { p.into_subdivisions(n) };
        decompose(self, &f, Ghost(|p: P| p.subdivisions(n as nat)))
    }
}

/// Sequences of quads that can all be cut into triangles around midpoints.
pub trait Tetrahedrons<T: Copy + Interpolate>: Sized {
    /// The quads of the sequence.
    spec fn quad_seq(&self) -> Seq<Quad<T>>;

    fn tetrahedrons(self) -> (r: Vec<Triangle<T>>)
        ensures
            r@ == split_all(|q: Quad<T>| q.tetrahedron_seq(), self.quad_seq()),
    ;
}

impl<T: Copy + Interpolate> Tetrahedrons<T> for Vec<Quad<T>> {
    open spec fn quad_seq(&self) -> Seq<Quad<T>> {
        self@
    }

    fn tetrahedrons(self) -> (r: Vec<Triangle<T>>) {
        let f = |q: Quad<T>| -> (r: Vec<Triangle<T>>)
            ensures
                r@ == q.tetrahedron_seq(),
            { q.into_tetrahedrons() };
        decompose(self, &f, Ghost(|q: Quad<T>| q.tetrahedron_seq()))
    }
}

} // verus!
