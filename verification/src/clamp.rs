//! Values that are clamped to a closed range fixed by their type.
use std::cmp::Ordering;
use std::marker::PhantomData;
use vstd::prelude::*;
use vstd::std_specs::cmp::PartialEqSpecImpl;
use vstd::std_specs::cmp::PartialOrdSpecImpl;
use vstd::std_specs::convert::FromSpecImpl;

verus! {

/// The closed range `[min_value, max_value]` that a `Clamped` value lies in.
pub trait ClampedRange {
    /// The largest value of the range.
    spec fn upper() -> u8;

    /// The smallest value of the range.
    spec fn lower() -> u8;

    fn max_value() -> (r: u8)
        ensures
            r == Self::upper(),
    ;

    fn min_value() -> (r: u8)
        ensures
            r == Self::lower(),
    ;

    /// Every range is non-empty.
    proof fn lemma_range_nonempty()
        ensures
            Self::lower() <= Self::upper(),
    ;
}

/// Clamps `value` into `[min, max]` (for `min <= max`).
pub open spec fn clamp_spec(value: int, min: int, max: int) -> int {
    if value < min {
        min
    } else if value > max {
        max
    } else {
        value
    }
}

/// Clamps a byte into `[min, max]`.
pub fn clamp_u8(value: u8, min: u8, max: u8) -> (r: u8)
    requires
        min <= max,
    ensures
        r == clamp_spec(value as int, min as int, max as int),
{
    if value < min {
        min
    } else if value > max {
        max
    } else {
        value
    }
}

/// A byte that always lies in the range given by `R`.
pub struct Clamped<R: ClampedRange> {
    value: u8,
    range: PhantomData<R>,
}

impl<R: ClampedRange> Clone for Clamped<R> {
    fn clone(&self) -> (r: Self)
        ensures
            r == *self,
    {
        proof {
            use_type_invariant(self);
        }
        Clamped { value: self.value, range: PhantomData }
    }
}

impl<R: ClampedRange> Copy for Clamped<R> {

}

impl<R: ClampedRange> Clamped<R> {
    #[verifier::type_invariant]
    spec fn in_range(self) -> bool {
        R::lower() <= self.value <= R::upper()
    }

    /// The inner value.
    pub closed spec fn inner(self) -> u8 {
        self.value
    }

    /// The value with the given inner byte.
    pub closed spec fn from_inner(v: u8) -> Self {
        Clamped { value: v, range: PhantomData }
    }

    /// A value is determined by its inner byte.
    pub proof fn lemma_from_inner(self)
        ensures
            Self::from_inner(self.inner()) == self,
            Self::from_inner(self.inner()).inner() == self.inner(),
    {
    }

    /// The inner byte of `from_inner`.
    pub proof fn lemma_inner_of(v: u8)
        ensures
            Self::from_inner(v).inner() == v,
    {
    }

    /// Clamps `value` into the range.
    pub fn new(value: u8) -> (r: Self)
        ensures
            r.inner() == clamp_spec(value as int, R::lower() as int, R::upper() as int),
    {
        proof {
            R::lemma_range_nonempty();
        }
        let v = clamp_u8(value, R::min_value(), R::max_value());
        Clamped { value: v, range: PhantomData }
    }

    pub fn max_value() -> (r: Self)
        ensures
            r.inner() == R::upper(),
    {
        proof {
            R::lemma_range_nonempty();
        }
        Clamped { value: R::max_value(), range: PhantomData }
    }

    pub fn max_inner_value() -> (r: u8)
        ensures
            r == R::upper(),
    {
        R::max_value()
    }

    pub fn min_value() -> (r: Self)
        ensures
            r.inner() == R::lower(),
    {
        proof {
            R::lemma_range_nonempty();
        }
        Clamped { value: R::min_value(), range: PhantomData }
    }

    pub fn min_inner_value() -> (r: u8)
        ensures
            r == R::lower(),
    {
        R::min_value()
    }

    pub fn to_inner(&self) -> (r: u8)
        ensures
            r == self.inner(),
            R::lower() <= r <= R::upper(),
    {
        proof {
            use_type_invariant(self);
        }
        self.value
    }

    /// Clamps this value into `[min, max]`.
    pub fn clamp(&self, min: Self, max: Self) -> (r: Self)
        requires
            min.inner() <= max.inner(),
        ensures
            r.inner() == clamp_spec(self.inner() as int, min.inner() as int, max.inner() as int),
    {
        if self.value < min.value {
            min
        } else if self.value > max.value {
            max
        } else {
            *self
        }
    }

    /// Adds `n` to the inner value and clamps the sum into the range.
    pub fn add_inner(self, n: u8) -> (r: Self)
        requires
            self.inner() + n <= u8::MAX,
        ensures
            r.inner() == clamp_spec(self.inner() + n, R::lower() as int, R::upper() as int),
    {
        Self::new(self.value + n)
    }

    /// Subtracts `n` from the inner value and clamps the difference into the range.
    pub fn sub_inner(self, n: u8) -> (r: Self)
        requires
            n <= self.inner(),
        ensures
            r.inner() == clamp_spec(self.inner() - n, R::lower() as int, R::upper() as int),
    {
        Self::new(self.value - n)
    }

    /// Subtracts the inner value of `other` and clamps the difference into the range.
    pub fn sub_clamped(self, other: Self) -> (r: Self)
        requires
            other.inner() <= self.inner(),
        ensures
            r.inner() == clamp_spec(self.inner() - other.inner(), R::lower() as int, R::upper() as int),
    {
        Self::new(self.value - other.value)
    }
}

impl<R: ClampedRange> PartialEq for Clamped<R> {
    /// Values are equal where their inner bytes are.
    fn eq(&self, other: &Self) -> (r: bool) {
        self.value == other.value
    }
}

impl<R: ClampedRange> PartialEqSpecImpl for Clamped<R> {
    open spec fn obeys_eq_spec() -> bool {
        true
    }

    open spec fn eq_spec(&self, other: &Self) -> bool {
        self.inner() == other.inner()
    }
}

impl<R: ClampedRange> Eq for Clamped<R> {

}

impl<R: ClampedRange> PartialOrd for Clamped<R> {
    /// Values are ordered by their inner bytes.
    fn partial_cmp(&self, other: &Self) -> (r: Option<Ordering>) {
        if self.value < other.value {
            Some(Ordering::Less)
        } else if self.value == other.value {
            Some(Ordering::Equal)
        } else {
            Some(Ordering::Greater)
        }
    }
}

impl<R: ClampedRange> PartialOrdSpecImpl for Clamped<R> {
    open spec fn obeys_partial_cmp_spec() -> bool {
        true
    }

    open spec fn partial_cmp_spec(&self, other: &Self) -> Option<Ordering> {
        if self.inner() < other.inner() {
            Some(Ordering::Less)
        } else if self.inner() == other.inner() {
            Some(Ordering::Equal)
        } else {
            Some(Ordering::Greater)
        }
    }
}

impl<R: ClampedRange> From<u8> for Clamped<R> {
    /// Clamps `value` into the range.
    fn from(value: u8) -> (r: Self) {
        Self::new(value)
    }
}

impl<R: ClampedRange> FromSpecImpl<u8> for Clamped<R> {
    open spec fn obeys_from_spec() -> bool {
        true
    }

    open spec fn from_spec(value: u8) -> Self {
        Self::from_inner(clamp_spec(value as int, R::lower() as int, R::upper() as int) as u8)
    }
}

/// Clamping is idempotent: a value built from an in-range byte keeps that byte.
pub proof fn lemma_clamp_keeps_in_range(value: int, min: int, max: int)
    requires
        min <= value <= max,
    ensures
        clamp_spec(value, min, max) == value,
{
}

} // verus!
