//! Platform-to-core interface types.
//!
//! The platform context and the logic context interact only through an
//! asynchronous channel carrying these events: one `Inputs` message per
//! platform cycle, and a distinct shutdown signal.

use crate::input::event::InputEvent;
use vstd::prelude::*;

verus! {

/// An event sent from the platform context to the logic context.
#[derive(Debug, Clone)]
pub enum PlatformEvent {
    /// Batched input events for one platform cycle: the discrete events in
    /// submission order, and the continuous events coalesced to the latest
    /// sample per kind.
    Inputs { discrete: Vec<InputEvent>, continuous: Vec<InputEvent> },
    /// Window close requested; the logic loop finishes its phase and
    /// exits.
    WindowClosed,
}

} // verus!
