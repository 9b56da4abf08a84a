//! The deformable geometry of a leaf cube: for each axis, four edges whose
//! front and back ends are offsets into the cube.
use vstd::prelude::*;

use crate::clamp::{clamp_spec, Clamped, ClampedRange};
use crate::math::UPoint3;
use crate::space::Axis;

verus! {

/// Defines the bounds for `Offset` values.
#[derive(Clone, Copy)]
pub struct OffsetRange;

impl ClampedRange for OffsetRange {
    open spec fn upper() -> u8 {
        0x0F
    }

    open spec fn lower() -> u8 {
        0x00
    }

    fn max_value() -> (r: u8) {
        0x0F
    }

    fn min_value() -> (r: u8) {
        0x00
    }

    proof fn lemma_range_nonempty() {
    }
}

/// Edge offset: the deformation of an edge as a coordinate in `[0, 15]`.
pub type Offset = Clamped<OffsetRange>;

/// The front of a packed edge: its upper four bits.
pub open spec fn front_of(packed: u8) -> u8 {
    (packed & 0xF0u8) >> 4u8
}

/// The back of a packed edge: its lower four bits.
pub open spec fn back_of(packed: u8) -> u8 {
    packed & 0x0Fu8
}

/// Packs a front and a back into one byte.
pub open spec fn pack(front: u8, back: u8) -> u8 {
    ((front << 4u8) | back) as u8
}

/// Edge of a cube's geometry, with a front and a back offset packed into the
/// upper and lower halves of a byte. The front never passes the back.
#[derive(Clone, Copy)]
pub struct Edge(u8);

proof fn lemma_pack(front: u8, back: u8)
    requires
        front <= 15,
        back <= 15,
    ensures
        front_of(pack(front, back)) == front,
        back_of(pack(front, back)) == back,
{
    assert((((((front << 4u8) | back) as u8) & 0xF0u8) >> 4u8) == front) by (bit_vector)
        requires
            front <= 15,
            back <= 15,
    ;
    assert(((((front << 4u8) | back) as u8) & 0x0Fu8) == back) by (bit_vector)
        requires
            front <= 15,
            back <= 15,
    ;
}

proof fn lemma_unpack_bounds(packed: u8)
    ensures
        front_of(packed) <= 15,
        back_of(packed) <= 15,
{
    assert(((packed & 0xF0u8) >> 4u8) <= 15u8) by (bit_vector);
    assert((packed & 0x0Fu8) <= 15u8) by (bit_vector);
}

impl Edge {
    #[verifier::type_invariant]
    spec fn ordered(self) -> bool {
        front_of(self.0) <= back_of(self.0)
    }

    /// The front offset.
    pub closed spec fn front_spec(self) -> u8 {
        front_of(self.0)
    }

    /// The back offset.
    pub closed spec fn back_spec(self) -> u8 {
        back_of(self.0)
    }

    /// Constructs an edge that spans the full width (no deformation).
    pub fn full() -> (r: Self)
        ensures
            r.front_spec() == 0,
            r.back_spec() == 15,
    {
        assert((0x0Fu8 & 0xF0u8) >> 4u8 == 0u8 && (0x0Fu8 & 0x0Fu8) == 15u8) by (bit_vector);
        Edge(Offset::max_inner_value())
    }

    /// Constructs an edge whose front and back meet at an offset.
    pub fn converged(offset: Offset) -> (r: Self)
        ensures
            r.front_spec() == offset.inner(),
            r.back_spec() == offset.inner(),
    {
        let o = offset.to_inner();
        proof {
            lemma_pack(o, o);
        }
        Edge((o << 4u8) | o)
    }

    /// Sets the front. A front that would pass the back is clamped to meet it.
    pub fn set_front(&mut self, offset: Offset)
        ensures
            final(self).front_spec() == clamp_spec(
                offset.inner() as int,
                0,
                old(self).back_spec() as int,
            ),
            final(self).back_spec() == old(self).back_spec(),
    {
        let back = self.back();
        let o = offset.clamp(Offset::min_value(), back).to_inner();
        let b = back.to_inner();
        proof {
            lemma_pack(o, b);
        }
        self.0 = (o << 4u8) | b;
    }

    /// Sets the back. A back that would pass the front is clamped to meet it.
    pub fn set_back(&mut self, offset: Offset)
        ensures
            final(self).back_spec() == clamp_spec(
                offset.inner() as int,
                old(self).front_spec() as int,
                15,
            ),
            final(self).front_spec() == old(self).front_spec(),
    {
        let front = self.front();
        let o = offset.clamp(front, Offset::max_value()).to_inner();
        let f = front.to_inner();
        proof {
            lemma_pack(f, o);
        }
        self.0 = (f << 4u8) | o;
    }

    /// Gets the front offset.
    pub fn front(&self) -> (r: Offset)
        ensures
            r.inner() == self.front_spec(),
            self.front_spec() <= self.back_spec() <= 15,
    {
        proof {
            use_type_invariant(self);
            lemma_unpack_bounds(self.0);
        }
        Offset::new((self.0 & 0xF0u8) >> 4u8)
    }

    /// Gets the back offset.
    pub fn back(&self) -> (r: Offset)
        ensures
            r.inner() == self.back_spec(),
            self.front_spec() <= self.back_spec() <= 15,
    {
        proof {
            use_type_invariant(self);
            lemma_unpack_bounds(self.0);
        }
        Offset::new(self.0 & 0x0Fu8)
    }

    /// Gets the length of the edge: the back less the front.
    pub fn length(&self) -> (r: Offset)
        ensures
            r.inner() == self.back_spec() - self.front_spec(),
    {
        let front = self.front();
        self.back().sub_clamped(front)
    }
}

/// The geometry of a leaf: four edges along each of the three axes.
#[derive(Clone, Copy)]
pub struct Geometry([[Edge; 4]; 3]);

impl Geometry {
    /// The edge at index `i` along the axis with index `axis`.
    pub closed spec fn edge(self, axis: int, i: int) -> Edge {
        self.0[axis][i]
    }

    /// All edges along an axis have length zero.
    pub open spec fn axis_collapsed(self, axis: int) -> bool {
        forall|i: int| 0 <= i < 4 ==> #[trigger] self.edge(axis, i).front_spec() == self.edge(
            axis,
            i,
        ).back_spec()
    }

    /// Geometry with every edge spanning the full width.
    pub fn full() -> (r: Self)
        ensures
            forall|a: int, i: int|
                0 <= a < 3 && 0 <= i < 4 ==> #[trigger] r.edge(a, i).front_spec() == 0
                    && r.edge(a, i).back_spec() == 15,
    {
        let e = Edge::full();
        Geometry([[e, e, e, e], [e, e, e, e], [e, e, e, e]])
    }

    /// Geometry with every edge converged at offset zero.
    pub fn empty() -> (r: Self)
        ensures
            forall|a: int, i: int|
                0 <= a < 3 && 0 <= i < 4 ==> #[trigger] r.edge(a, i).front_spec() == 0
                    && r.edge(a, i).back_spec() == 0,
    {
        let e = Edge::converged(Offset::new(0));
        Geometry([[e, e, e, e], [e, e, e, e], [e, e, e, e]])
    }

    /// The edges along an axis.
    pub fn edges(&self, axis: Axis) -> (r: &[Edge; 4])
        ensures
            forall|i: int| 0 <= i < 4 ==> #[trigger] r[i] == self.edge(axis.index_spec() as int, i),
    {
        &self.0[axis.index()]
    }

    /// The edges along an axis, for modification.
    pub fn edges_mut(&mut self, axis: Axis) -> (r: &mut [Edge; 4])
        ensures
            forall|i: int| 0 <= i < 4 ==> #[trigger] r[i] == old(self).edge(axis.index_spec() as int, i),
            forall|a: int, j: int|
                0 <= a < 3 && 0 <= j < 4 ==> #[trigger] final(self).edge(a, j) == if a == axis.index_spec() {
                    final(r)[j]
                } else {
                    old(self).edge(a, j)
                },
    {
        &mut self.0[axis.index()]
    }

    /// Replaces the edge at index `i` along an axis.
    pub fn set_edge(&mut self, axis: Axis, i: usize, edge: Edge)
        requires
            i < 4,
        ensures
            final(self).edge(axis.index_spec() as int, i as int) == edge,
            forall|a: int, j: int|
                0 <= a < 3 && 0 <= j < 4 && !(a == axis.index_spec() && j == i)
                    ==> #[trigger] final(self).edge(a, j) == old(self).edge(a, j),
    {
        let a = axis.index();
        let mut row = self.0[a];
        row[i] = edge;
        self.0[a] = row;
    }

    /// Returns `true` if the geometry encloses no volume: along some axis every
    /// edge has length zero.
    pub fn is_empty(&self) -> (r: bool)
        ensures
            r == (exists|a: int| 0 <= a < 3 && #[trigger] self.axis_collapsed(a)),
    {
        let mut a: usize = 0;
        while a < 3
            invariant
                a <= 3,
                forall|b: int| 0 <= b < a ==> !#[trigger] self.axis_collapsed(b),
            decreases 3 - a,
        {
            let mut all = true;
            let mut i: usize = 0;
            while i < 4
                invariant
                    a < 3,
                    i <= 4,
                    all == (forall|j: int|
                        0 <= j < i ==> #[trigger] self.edge(a as int, j).front_spec() == self.edge(
                            a as int,
                            j,
                        ).back_spec()),
                decreases 4 - i,
            {
                let len = self.0[a][i].length().to_inner();
                assert(self.0[a as int][i as int] == self.edge(a as int, i as int));
                all = all && len == 0;
                i = i + 1;
            }
            if all {
                assert(self.axis_collapsed(a as int));
                return true;
            }
            a = a + 1;
        }
        false
    }
}

/// How far the corner `unit` of the unit cube moves along the axis with index
/// `axis`, in fifteenths of the cube's width: by the front of its edge where
/// the corner is at 0 on that axis, and back by what the back of its edge
/// falls short of 15 where the corner is at 1.
pub open spec fn corner_offset(g: Geometry, axis: int, unit: UPoint3) -> int {
    let i = unit.coord(if axis == 0 {
        1
    } else {
        0
    }) + 2 * unit.coord(
        if axis == 2 {
            1
        } else {
            2
        },
    );
    let e = g.edge(axis, i);
    if unit.coord(axis) == 0 {
        e.front_spec() as int
    } else {
        e.back_spec() - 15
    }
}

/// A corner at the back end of its edge (at 1 on the axis) moves by the
/// edge's back alone: two geometries whose edges have the same backs move it
/// alike, whatever their fronts.
pub proof fn lemma_back_corner_ignores_front(g1: Geometry, g2: Geometry, axis: int, unit: UPoint3)
    requires
        0 <= axis < 3,
        unit.x <= 1,
        unit.y <= 1,
        unit.z <= 1,
        unit.coord(axis) == 1,
        forall|a: int, i: int|
            0 <= a < 3 && 0 <= i < 4 ==> #[trigger] g1.edge(a, i).back_spec() == g2.edge(a, i).back_spec(),
    ensures
        corner_offset(g1, axis, unit) == corner_offset(g2, axis, unit),
{
}

/// A corner at the front end of its edge (at 0 on the axis) moves by the
/// edge's front alone: two geometries whose edges have the same fronts move
/// it alike, whatever their backs.
pub proof fn lemma_front_corner_ignores_back(g1: Geometry, g2: Geometry, axis: int, unit: UPoint3)
    requires
        0 <= axis < 3,
        unit.x <= 1,
        unit.y <= 1,
        unit.z <= 1,
        unit.coord(axis) == 0,
        forall|a: int, i: int|
            0 <= a < 3 && 0 <= i < 4 ==> #[trigger] g1.edge(a, i).front_spec() == g2.edge(a, i).front_spec(),
    ensures
        corner_offset(g1, axis, unit) == corner_offset(g2, axis, unit),
{
}

/// Where every edge along an axis keeps its back at 15, no corner at the back
/// end moves along that axis; where every front is at 0, no corner at the
/// front end moves. Corners move inwards only: a front-end corner by at most
/// 15 forwards, a back-end corner by at most 15 backwards.
pub proof fn lemma_corner_moves_inwards(g: Geometry, axis: int, unit: UPoint3)
    requires
        0 <= axis < 3,
        unit.x <= 1,
        unit.y <= 1,
        unit.z <= 1,
    ensures
        unit.coord(axis) == 0 ==> 0 <= corner_offset(g, axis, unit) <= 15,
        unit.coord(axis) == 1 ==> -15 <= corner_offset(g, axis, unit) <= 0,
        unit.coord(axis) == 1 && (forall|i: int| 0 <= i < 4 ==> #[trigger] g.edge(axis, i).back_spec() == 15)
            ==> corner_offset(g, axis, unit) == 0,
        unit.coord(axis) == 0 && (forall|i: int| 0 <= i < 4 ==> #[trigger] g.edge(axis, i).front_spec() == 0)
            ==> corner_offset(g, axis, unit) == 0,
{
    let i = unit.coord(if axis == 0 {
        1
    } else {
        0
    }) + 2 * unit.coord(
        if axis == 2 {
            1
        } else {
            2
        },
    );
    lemma_unpack_bounds(g.edge(axis, i).0);
}

impl Geometry {
    /// How far each coordinate of the corner `unit` of the unit cube moves
    /// under this geometry, in fifteenths of the cube's width (see
    /// `corner_offset`). The deformed corner is `unit + r / 15`.
    pub fn unit_cube_offsets(&self, unit: &UPoint3) -> (r: [i8; 3])
        requires
            unit.x <= 1,
            unit.y <= 1,
            unit.z <= 1,
        ensures
            forall|a: int| 0 <= a < 3 ==> #[trigger] r[a] == corner_offset(*self, a, *unit),
    {
        let mut offsets: [i8; 3] = [0, 0, 0];
        let mut axis: usize = 0;
        while axis < 3
            invariant
                axis <= 3,
                unit.x <= 1,
                unit.y <= 1,
                unit.z <= 1,
                forall|a: int| 0 <= a < axis ==> #[trigger] offsets[a] == corner_offset(*self, a, *unit),
            decreases 3 - axis,
        {
            let i = index_at_axis(axis, unit);
            let edge = self.0[axis][i];
            assert(edge == self.edge(axis as int, i as int));
            let offset: i8 = if unit.get(axis) == 0 {
                edge.front().to_inner() as i8
            } else {
                edge.back().to_inner() as i8 - 15
            };
            offsets.set(axis, offset);
            axis = axis + 1;
        }
        offsets
    }
}

/// Gets the index of an edge in a face (the four edges along an axis) from
/// the corner of the unit cube that it ends at.
pub fn index_at_axis(axis: usize, unit: &crate::math::UPoint3) -> (r: usize)
    requires
        axis < 3,
        unit.x <= 1,
        unit.y <= 1,
        unit.z <= 1,
    ensures
        r == unit.coord(if axis == 0 { 1 } else { 0 }) + 2 * unit.coord(
            if axis == 2 { 1 } else { 2 },
        ),
        r < 4,
{
    let p: usize = if axis == 0 { 1 } else { 0 };
    let q: usize = if axis == 2 { 1 } else { 2 };
    let a = unit.get(p);
    let b = unit.get(q);
    assert((a | (b << 1u32)) == a + 2 * b) by (bit_vector)
        requires
            a <= 1,
            b <= 1,
    ;
    (a | (b << 1u32)) as usize
}

/// The front and back of an edge cannot cross, but may meet: setting the
/// front (as `set_front` does) keeps it at or before the back, and keeps the
/// offset as given where it does not pass the back; setting the back (as
/// `set_back` does) keeps it at or after the front likewise.
pub proof fn lemma_edge_ends_never_cross(before: Edge, after: Edge, offset: Offset)
    requires
        before.front_spec() <= before.back_spec() <= 15,
    ensures
        ({
            let front = clamp_spec(offset.inner() as int, 0, before.back_spec() as int);
            &&& front <= before.back_spec()
            &&& offset.inner() <= before.back_spec() ==> front == offset.inner()
        }),
        ({
            let back = clamp_spec(offset.inner() as int, before.front_spec() as int, 15);
            &&& before.front_spec() <= back
            &&& before.front_spec() <= offset.inner() <= 15 ==> back == offset.inner()
        }),
{
}

} // verus!
