//! An oct-tree of cubes that represents a 3D world, with meshes, input
//! devices and a small activity framework around it.
use vstd::prelude::*;

pub mod clamp;
pub mod edit;
pub mod event;
pub mod framework;
pub mod geometry;
pub mod input;
pub mod math;
pub mod mesh;
pub mod parallel;
pub mod render;
pub mod resource;
pub mod space;
pub mod split;
pub mod tree;

verus! {

/// Turns a condition into an option.
pub trait BoolExt: Sized {
    fn into_some<T>(self, some: T) -> Option<T>;
}

impl BoolExt for bool {
    /// `Some(some)` where the condition holds, else `None`.
    fn into_some<T>(self, some: T) -> (r: Option<T>)
        ensures
            r == (if self {
                Some(some)
            } else {
                None
            }),
    {
        if self {
            Some(some)
        } else {
            None
        }
    }
}

/// Filters an option by a predicate.
pub trait OptionExt<T>: Sized {
    fn and_if<F: Fn(&T) -> bool>(self, f: F) -> Self
        requires
            forall|value: &T| #[trigger] f.requires((value,)),
    ;
}

impl<T> OptionExt<T> for Option<T> {
    /// Keeps the value where `f` holds of it, else gives `None`.
    fn and_if<F: Fn(&T) -> bool>(self, f: F) -> (r: Option<T>)
        ensures
            self is None ==> r is None,
            self matches Some(value) ==> (r == Some(value) && f.ensures((&value,), true)) || (r
                is None && f.ensures((&value,), false)),
    {
        match self {
            Some(value) => {
                if f(&value) {
                    Some(value)
                } else {
                    None
                }
            },
            None => None,
        }
    }
}

} // verus!
