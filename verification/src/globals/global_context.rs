//! Shared per-tick context handed to scenes.

use crate::input::action::Action;
use crate::input::event::InputEvent;
use crate::input::state_tracker::{initial_tracker_state, StateTracker};
use crate::message_bus::MessageBus;
use crate::scene::scene_manager::{SceneKey, SceneTransition};
use crate::scene::transition_queue::TransitionQueue;
use vstd::prelude::*;

verus! {

/// Shared context data accessible to scenes during updates.
///
/// Scenes read the input state and the message bus, and queue scene
/// transitions; they never mutate other scenes directly. The pending
/// input event batches are filled by the event collector and consumed by
/// the input system each tick.
pub struct GlobalContext<K: SceneKey, A: Action> {
    /// Per-tick input state for low-level input queries.
    pub input_state: StateTracker,
    /// Kind-partitioned message bus; the tick's resolved actions are
    /// published here under [`crate::globals::ACTION_MESSAGES`].
    pub message_bus: MessageBus<A>,
    /// Scene transitions queued during updates, applied at the tick
    /// boundary.
    pub transitions: TransitionQueue<K>,
    /// Input events for the current tick, one batch per platform message.
    pub frame_input_events: Vec<Vec<InputEvent>>,
}

impl<K: SceneKey, A: Action> GlobalContext<K, A> {
    /// Creates a context with empty state.
    pub fn new() -> (ctx: Self)
        ensures
            ctx.input_state@ == initial_tracker_state(),
            forall|kind: u64| ctx.message_bus.contents(kind) == Seq::<A>::empty(),
            ctx.transitions@ == Seq::<SceneTransition<K>>::empty(),
            ctx.frame_input_events@ == Seq::<Vec<InputEvent>>::empty(),
    {
        GlobalContext {
            input_state: StateTracker::new(),
            message_bus: MessageBus::new(),
            transitions: TransitionQueue::new(),
            frame_input_events: Vec::new(),
        }
    }
}

} // verus!
