//! Input devices such as keyboards and mice.
//!
//! Input devices track two stages of state: live state and snapshot state.
//! Live state and snapshot state are updated via the `React` and `Snapshot`
//! traits, respectively. The live state can be queried for the current state
//! of a device, and compared to the snapshot state for changes.
use vstd::prelude::*;

pub mod keyboard;
pub mod mouse;
pub mod state;

verus! {

} // verus!
