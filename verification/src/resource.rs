//! Identifiers of shared resources such as materials.
use vstd::prelude::*;

verus! {

/// Identifies a resource (such as the material of a leaf cube).
pub type ResourceId = u64;

} // verus!
