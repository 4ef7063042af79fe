//! Scene system: named, stateful, update-capable units managed via a
//! stack, with push/remove/replace/clear transition semantics and
//! transparent or opaque update propagation.

pub mod scene_manager;
pub mod transition_queue;

pub use scene_manager::{SceneKey, SceneManager, SceneTransition};
pub use transition_queue::TransitionQueue;

use crate::globals::GlobalContext;
use crate::input::action::Action;
use vstd::prelude::*;

verus! {

/// Defines scene behavior with lifecycle hooks and update logic.
///
/// Scenes are registered in a [`SceneManager`] and activated via the
/// scene stack; each scene keeps its own state between activations. The
/// lifecycle hooks default to doing nothing.
pub trait Scene<K: SceneKey, A: Action>: Sized + Send {
    /// Whether this scene, in its current state, is transparent. The
    /// scene manager's contracts describe the updated window of the
    /// stack in terms of this predicate.
    spec fn transparent_spec(&self) -> bool;

    /// Called when the scene enters the active stack.
    fn on_enter(&mut self, context: &mut GlobalContext<K, A>) {
    }

    /// Called when the scene exits the active stack.
    fn on_exit(&mut self, context: &mut GlobalContext<K, A>) {
    }

    /// Called every tick while the scene is in the updated window of the
    /// stack.
    fn update(&mut self, context: &mut GlobalContext<K, A>);

    /// Whether scenes below this one should also receive updates.
    ///
    /// Transparent scenes (a pause overlay, say) let underlying scenes
    /// continue updating; opaque scenes block updates to the lower stack.
    fn is_transparent(&self) -> (r: bool)
        ensures
            r == self.transparent_spec(),
    ;
}

} // verus!
