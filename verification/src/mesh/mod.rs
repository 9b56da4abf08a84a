//! Meshes of simple shapes: primitives, their decomposition, and generators
//! for cubes and spheres.
use vstd::prelude::*;

pub mod cube;
pub mod decompose;
pub mod generate;
pub mod index;
pub mod primitive;
pub mod sphere;
pub mod tessellate;

verus! {

} // verus!
