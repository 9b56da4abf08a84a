//! What an application tells its harness after an update.
use vstd::prelude::*;

verus! {

/// Whether an application goes on after an update.
#[derive(Clone, Copy, Debug, PartialEq, Eq, Structural)]
pub enum Execution {
    Continue,
    Abort,
}

} // verus!
