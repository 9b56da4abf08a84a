//! Errors of rendering. Drawing itself is done outside this library.
use vstd::prelude::*;

verus! {

/// Errors of rendering.
#[derive(Clone, Copy, Debug, PartialEq, Eq, Structural)]
pub enum RenderError {
    /// The rendering context was lost.
    ContextLost,
    /// Any other error.
    Unknown,
}

impl RenderError {
    /// A description of the error.
    pub fn description(&self) -> (r: &'static str)
        ensures
            *self == RenderError::ContextLost ==> r@ == "rendering context lost"@,
            *self == RenderError::Unknown ==> r@ == "unknown rendering error"@,
    {
        match self {
            RenderError::ContextLost => "rendering context lost",
            RenderError::Unknown => "unknown rendering error",
        }
    }
}

} // verus!
