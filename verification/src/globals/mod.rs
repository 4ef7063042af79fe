//! Global engine state: the shared context handed to scenes and the
//! container of the engine-level systems.

mod global_context;
mod global_systems;

pub use global_context::GlobalContext;
pub use global_systems::GlobalSystems;

use vstd::prelude::*;

verus! {

/// The message kind under which the tick's resolved actions are
/// published.
pub const ACTION_MESSAGES: u64 = 0;

} // verus!
