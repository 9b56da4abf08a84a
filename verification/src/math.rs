//! Points, vectors and small numeric helpers over the unsigned tree space.
use vstd::prelude::*;
use vstd::std_specs::cmp::PartialOrdIs;
use vstd::std_specs::cmp::PartialOrdSpec;

verus! {

/// Scalar of the unsigned (tree) space.
pub type UScalar = u32;

/// A point in the unsigned (tree) space.
#[derive(Clone, Copy, Debug, PartialEq, Eq, Structural)]
pub struct UPoint3 {
    pub x: u32,
    pub y: u32,
    pub z: u32,
}

/// A vector in the unsigned (tree) space.
#[derive(Clone, Copy, Debug, PartialEq, Eq, Structural)]
pub struct UVector3 {
    pub x: u32,
    pub y: u32,
    pub z: u32,
}

/// A point in the unsigned plane (such as a pixel position).
#[derive(Clone, Copy, Debug, PartialEq, Eq, Structural)]
pub struct UPoint2 {
    pub x: u32,
    pub y: u32,
}

impl UPoint3 {
    pub fn new(x: u32, y: u32, z: u32) -> (r: Self)
        ensures
            r == (UPoint3 { x, y, z }),
    {
        UPoint3 { x, y, z }
    }

    /// The origin of the space.
    pub open spec fn origin_spec() -> Self {
        UPoint3 { x: 0, y: 0, z: 0 }
    }

    /// The origin of the space.
    pub fn origin() -> (r: Self)
        ensures
            r == Self::origin_spec(),
    {
        UPoint3 { x: 0, y: 0, z: 0 }
    }

    /// The coordinate along the axis with the given index (0, 1 or 2).
    pub open spec fn coord(self, axis: int) -> u32 {
        if axis == 0 {
            self.x
        } else if axis == 1 {
            self.y
        } else {
            self.z
        }
    }

    /// Gets the coordinate along the axis with the given index.
    pub fn get(&self, axis: usize) -> (r: u32)
        requires
            axis < 3,
        ensures
            r == self.coord(axis as int),
    {
        if axis == 0 {
            self.x
        } else if axis == 1 {
            self.y
        } else {
            self.z
        }
    }

    /// Translates the point by a vector.
    pub fn add_vector(&self, v: &UVector3) -> (r: Self)
        requires
            self.x + v.x <= u32::MAX,
            self.y + v.y <= u32::MAX,
            self.z + v.z <= u32::MAX,
        ensures
            r.x == self.x + v.x,
            r.y == self.y + v.y,
            r.z == self.z + v.z,
    {
        UPoint3 { x: self.x + v.x, y: self.y + v.y, z: self.z + v.z }
    }

    /// The vector from `other` to this point.
    pub fn sub_point(&self, other: &UPoint3) -> (r: UVector3)
        requires
            other.x <= self.x,
            other.y <= self.y,
            other.z <= self.z,
        ensures
            r.x == self.x - other.x,
            r.y == self.y - other.y,
            r.z == self.z - other.z,
    {
        UVector3 { x: self.x - other.x, y: self.y - other.y, z: self.z - other.z }
    }
}

impl UVector3 {
    pub fn new(x: u32, y: u32, z: u32) -> (r: Self)
        ensures
            r == (UVector3 { x, y, z }),
    {
        UVector3 { x, y, z }
    }

    /// The zero vector.
    pub open spec fn zero_spec() -> Self {
        UVector3 { x: 0, y: 0, z: 0 }
    }

    pub fn zero() -> (r: Self)
        ensures
            r == Self::zero_spec(),
    {
        UVector3 { x: 0, y: 0, z: 0 }
    }

    /// The coordinate along the axis with the given index (0, 1 or 2).
    pub open spec fn coord(self, axis: int) -> u32 {
        if axis == 0 {
            self.x
        } else if axis == 1 {
            self.y
        } else {
            self.z
        }
    }

    /// Gets the coordinate along the axis with the given index.
    pub fn get(&self, axis: usize) -> (r: u32)
        requires
            axis < 3,
        ensures
            r == self.coord(axis as int),
    {
        if axis == 0 {
            self.x
        } else if axis == 1 {
            self.y
        } else {
            self.z
        }
    }
}

impl UPoint2 {
    pub fn new(x: u32, y: u32) -> (r: Self)
        ensures
            r == (UPoint2 { x, y }),
    {
        UPoint2 { x, y }
    }
}

/// Clamps a value into a range.
pub trait Clamp<T>: Sized {
    fn clamp(&self, min: T, max: T) -> Self;
}

/// Clamps a scalar into `[min, max]`.
pub open spec fn clamp_u32(value: u32, min: u32, max: u32) -> u32 {
    if value < min {
        min
    } else if value > max {
        max
    } else {
        value
    }
}

fn clamp_scalar(value: u32, min: u32, max: u32) -> (r: u32)
    ensures
        r == clamp_u32(value, min, max),
{
    if value < min {
        min
    } else if value > max {
        max
    } else {
        value
    }
}

impl Clamp<u32> for UPoint3 {
    /// Clamps each coordinate into `[min, max]`.
    fn clamp(&self, min: u32, max: u32) -> (r: Self)
        ensures
            r.x == clamp_u32(self.x, min, max),
            r.y == clamp_u32(self.y, min, max),
            r.z == clamp_u32(self.z, min, max),
    {
        UPoint3 {
            x: clamp_scalar(self.x, min, max),
            y: clamp_scalar(self.y, min, max),
            z: clamp_scalar(self.z, min, max),
        }
    }
}

/// Masks a value with a bit mask.
pub trait Mask<T>: Sized {
    fn mask(&self, value: T) -> Self;
}

impl Mask<u32> for UPoint3 {
    /// Masks each coordinate.
    fn mask(&self, value: u32) -> (r: Self)
        ensures
            r.x == self.x & value,
            r.y == self.y & value,
            r.z == self.z & value,
    {
        UPoint3 { x: self.x & value, y: self.y & value, z: self.z & value }
    }
}

impl UPoint3 {
    /// The component-wise upper bound of two points.
    pub open spec fn upper_bound_spec(self, other: Self) -> Self {
        UPoint3 {
            x: max_u32(self.x, other.x),
            y: max_u32(self.y, other.y),
            z: max_u32(self.z, other.z),
        }
    }

    /// The component-wise lower bound of two points.
    pub open spec fn lower_bound_spec(self, other: Self) -> Self {
        UPoint3 {
            x: min_u32(self.x, other.x),
            y: min_u32(self.y, other.y),
            z: min_u32(self.z, other.z),
        }
    }
}

/// The component-wise upper bound of two values.
pub trait UpperBound: Sized {
    fn upper_bound(&self, other: &Self) -> Self;
}

/// The component-wise lower bound of two values.
pub trait LowerBound: Sized {
    fn lower_bound(&self, other: &Self) -> Self;
}

pub open spec fn max_u32(a: u32, b: u32) -> u32 {
    if a >= b {
        a
    } else {
        b
    }
}

pub open spec fn min_u32(a: u32, b: u32) -> u32 {
    if a <= b {
        a
    } else {
        b
    }
}

fn max_scalar(a: u32, b: u32) -> (r: u32)
    ensures
        r == max_u32(a, b),
{
    if a >= b {
        a
    } else {
        b
    }
}

fn min_scalar(a: u32, b: u32) -> (r: u32)
    ensures
        r == min_u32(a, b),
{
    if a <= b {
        a
    } else {
        b
    }
}

impl UpperBound for UPoint3 {
    /// The component-wise upper bound of two points.
    fn upper_bound(&self, other: &Self) -> (r: Self)
        ensures
            r == self.upper_bound_spec(*other),
    {
        let x = max_scalar(self.x, other.x);
        let y = max_scalar(self.y, other.y);
        let z = max_scalar(self.z, other.z);
        UPoint3 { x, y, z }
    }
}

impl LowerBound for UPoint3 {
    /// The component-wise lower bound of two points.
    fn lower_bound(&self, other: &Self) -> (r: Self)
        ensures
            r == self.lower_bound_spec(*other),
    {
        let x = min_scalar(self.x, other.x);
        let y = min_scalar(self.y, other.y);
        let z = min_scalar(self.z, other.z);
        UPoint3 { x, y, z }
    }
}

/// A pair in order: `(a, b)` where `a <= b`, else `(b, a)`.
pub open spec fn ordered_pair_spec<T: PartialOrd>(a: T, b: T) -> (T, T) {
    if a.is_le(&b) {
        (a, b)
    } else {
        (b, a)
    }
}

/// The lesser of two values: `a` where `a <= b`, else `b`.
pub open spec fn partial_min_spec<T: PartialOrd>(a: T, b: T) -> T {
    if a.is_le(&b) {
        a
    } else {
        b
    }
}

/// The greater of two values: `a` where `a > b`, else `b`.
pub open spec fn partial_max_spec<T: PartialOrd>(a: T, b: T) -> T {
    if a.is_gt(&b) {
        a
    } else {
        b
    }
}

/// Orders a pair so that the first element is not greater than the second.
pub fn ordered_pair<T: PartialOrd>(a: T, b: T) -> (r: (T, T))
    ensures
        r == (a, b) || r == (b, a),
        T::obeys_partial_cmp_spec() ==> r == ordered_pair_spec(a, b),
{
    if a <= b {
        (a, b)
    } else {
        (b, a)
    }
}

/// The lesser of two values, `a` on ties.
pub fn partial_min<T: PartialOrd>(a: T, b: T) -> (r: T)
    ensures
        r == a || r == b,
        T::obeys_partial_cmp_spec() ==> r == partial_min_spec(a, b),
{
    if a <= b {
        a
    } else {
        b
    }
}

/// The greater of two values.
pub fn partial_max<T: PartialOrd>(a: T, b: T) -> (r: T)
    ensures
        r == a || r == b,
        T::obeys_partial_cmp_spec() ==> r == partial_max_spec(a, b),
{
    if a > b {
        a
    } else {
        b
    }
}

/// For two values that compare (one is at most or greater than the other),
/// the lesser and the greater of them, in that order, are the ordered pair.
pub proof fn lemma_min_max_ordered<T: PartialOrd>(a: T, b: T)
    requires
        a.is_le(&b) || a.is_gt(&b),
    ensures
        (partial_min_spec(a, b), partial_max_spec(a, b)) == ordered_pair_spec(a, b),
{
}

} // verus!

verus! {

/// The non-negative remainder of `n` divided by `m`.
pub fn umod(n: isize, m: isize) -> (r: isize)
    requires
        m > 0,
        2 * m <= isize::MAX,
    ensures
        r == n % m,
        0 <= r < m,
{
    let t = n % m;
    proof {
        let mi = m as int;
        let ni = n as int;
        assert(t == if ni >= 0 { ni % mi } else { -((-ni) % mi) });
        if ni < 0 {
            let k = (-ni) % mi;
            let q = (-ni) / mi;
            vstd::arithmetic::div_mod::lemma_fundamental_div_mod(-ni, mi);
            assert(ni == mi * (-q) + (-k)) by (nonlinear_arith)
                requires
                    -ni == mi * q + k,
            ;
            vstd::arithmetic::div_mod::lemma_mod_multiples_vanish(-q, -k, mi);
            vstd::arithmetic::div_mod::lemma_mod_add_multiples_vanish(-k, mi);
        } else {
            vstd::arithmetic::div_mod::lemma_mod_add_multiples_vanish(ni % mi, mi);
            vstd::arithmetic::div_mod::lemma_small_mod((ni % mi) as nat, mi as nat);
        }
    }
    let r = (t + m) % m;
    r
}

} // verus!

verus! {

/// Values with a midpoint between two of them.
pub trait Interpolate: Sized {
    /// The midpoint between `self` and `other`.
    spec fn midpoint_spec(&self, other: &Self) -> Self;

    fn midpoint(&self, other: &Self) -> (r: Self)
        ensures
            r == self.midpoint_spec(other),
    ;
}

/// The midpoint of two unsigned scalars, rounded down.
pub open spec fn midpoint_u32(a: u32, b: u32) -> u32 {
    ((a + b) / 2) as u32
}

impl Interpolate for u32 {
    open spec fn midpoint_spec(&self, other: &u32) -> u32 {
        midpoint_u32(*self, *other)
    }

    fn midpoint(&self, other: &u32) -> (r: u32) {
        let a = *self;
        let b = *other;
        a / 2 + b / 2 + (a % 2 + b % 2) / 2
    }
}

impl Interpolate for UPoint3 {
    open spec fn midpoint_spec(&self, other: &UPoint3) -> UPoint3 {
        UPoint3 {
            x: midpoint_u32(self.x, other.x),
            y: midpoint_u32(self.y, other.y),
            z: midpoint_u32(self.z, other.z),
        }
    }

    fn midpoint(&self, other: &UPoint3) -> (r: UPoint3) {
        UPoint3 {
            x: Interpolate::midpoint(&self.x, &other.x),
            y: Interpolate::midpoint(&self.y, &other.y),
            z: Interpolate::midpoint(&self.z, &other.z),
        }
    }
}

} // verus!
