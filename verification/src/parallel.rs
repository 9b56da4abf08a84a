//! Values that split into halves for work on each, and whose results join.
use vstd::prelude::*;

verus! {

/// Results that two halves of some work can be joined into.
pub trait Join: Sized {
    fn join(self, other: Self) -> Self;
}

impl Join for () {
    fn join(self, other: ()) -> (r: ()) {
    }
}

/// Work that can be split into two halves.
pub trait Split: Sized {
    fn split(self) -> (Self, Self);
}

} // verus!
