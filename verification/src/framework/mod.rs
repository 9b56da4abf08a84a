//! A small framework for applications: a stack of activities that updates
//! and renders the top one, the context they work in, and a fixed-step time
//! model.
use vstd::prelude::*;

pub mod activity;
pub mod application;
pub mod context;
pub mod harness;
pub mod time;

verus! {

/// Errors of the framework.
#[derive(Clone, Copy, Debug, PartialEq, Eq, Structural)]
pub enum FrameworkError {
    /// An activity failed.
    Activity,
    /// The activity stack failed.
    ActivityStack,
}

impl FrameworkError {
    /// A short description of the error.
    pub fn description(&self) -> (r: &'static str)
        ensures
            *self == FrameworkError::Activity ==> r@ == "activity error"@,
            *self == FrameworkError::ActivityStack ==> r@ == "activity stack error"@,
    {
        match self {
            FrameworkError::Activity => "activity error",
            FrameworkError::ActivityStack => "activity stack error",
        }
    }
}

} // verus!
