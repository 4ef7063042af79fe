//! One tick of the core systems, from event collection to transition
//! processing. The surrounding loop — thread spawning, tick pacing and
//! idle back-off — lives with the host, which calls [`run_tick`] at its
//! fixed tick rate until it returns [`TickControl::Exit`].

use crate::globals::{GlobalContext, GlobalSystems};
use crate::input::action::Action;
use crate::platform_bridge::{EventCollector, TickControl};
use crate::scene::scene_manager::{stack_apply_all, SceneKey, SceneTransition};
use crate::scene::Scene;
use vstd::prelude::*;

verus! {

/// Runs one tick: collects the pending platform events, aborts cleanly if
/// shutdown was signaled, hands the batch to the input system, updates the
/// active scenes and applies the queued scene transitions.
///
/// On [`TickControl::Exit`] the systems and context are left untouched, so
/// the loop finishes its current phase and stops.
pub fn run_tick<K: SceneKey, A: Action, T: Scene<K, A>>(
    collector: &mut EventCollector,
    context: &mut GlobalContext<K, A>,
    systems: &mut GlobalSystems<K, A, T>,
) -> (r: TickControl)
    requires
        old(systems).scene_manager.well_formed(),
    ensures
        final(systems).scene_manager.well_formed(),
        r == TickControl::Exit ==> *final(context) == *old(context) && *final(systems) == *old(
            systems,
        ),
        forall|k: K|
            #[trigger] final(systems).scene_manager.is_registered(k) == old(
                systems,
            ).scene_manager.is_registered(k),
        final(systems).input.mapper_spec() == old(systems).input.mapper_spec(),
        exists|ts: Seq<SceneTransition<K>>|
            final(systems).scene_manager.stack_keys() == stack_apply_all(
                old(systems).scene_manager.stack_keys(),
                old(systems).scene_manager.registered_set(),
                ts,
            ),
{
    if collector.collect_frame() == TickControl::Exit {
        proof {
            let ts = Seq::<SceneTransition<K>>::empty();
            assert(stack_apply_all(
                old(systems).scene_manager.stack_keys(),
                old(systems).scene_manager.registered_set(),
                ts,
            ) == old(systems).scene_manager.stack_keys());
        }
        return TickControl::Exit;
    }
    context.frame_input_events = collector.take_batches();
    systems.update(context);
    TickControl::Continue
}

} // verus!
