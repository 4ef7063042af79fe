//! Container for the engine-level logic systems.

use crate::globals::{GlobalContext, ACTION_MESSAGES};
use crate::input::action::Action;
use crate::input::state_tracker::{clear_step, finalize_step, track_steps};
use crate::input::{flatten_batches, resolve_steps, InputSystem};
use crate::scene::scene_manager::{stack_apply_all, SceneKey, SceneManager, SceneTransition};
use crate::scene::Scene;
use vstd::prelude::*;

verus! {

/// Container for the engine-level logic systems: the input system and the
/// scene manager. These operate on the shared [`GlobalContext`] during
/// engine updates.
pub struct GlobalSystems<K: SceneKey, A: Action, T: Scene<K, A>> {
    /// The input system for action mapping and input processing.
    pub input: InputSystem<A>,
    /// The scene manager for scene lifecycle and stack management.
    pub scene_manager: SceneManager<K, A, T>,
}

impl<K: SceneKey, A: Action, T: Scene<K, A>> GlobalSystems<K, A, T> {
    /// Creates a systems container with default-initialized systems.
    pub fn new() -> (sys: Self)
        ensures
            sys.scene_manager.well_formed(),
            sys.scene_manager.stack_keys() == Seq::<K>::empty(),
            forall|k: K| !sys.scene_manager.is_registered(k),
            sys.input.resolved() == Seq::<A>::empty(),
    {
        GlobalSystems { input: InputSystem::new(), scene_manager: SceneManager::new() }
    }

    /// The input phase of a tick: digests the pending event batches into
    /// the input state, then clears the previous tick's action slot on the
    /// message bus and publishes the freshly resolved actions, in order.
    pub fn digest_and_publish(&mut self, context: &mut GlobalContext<K, A>)
        ensures
            final(context).input_state@ == finalize_step(
                track_steps(
                    clear_step(old(context).input_state@),
                    flatten_batches(old(context).frame_input_events@),
                ),
            ),
            final(self).input.resolved() == resolve_steps(
                old(self).input.mapper_spec(),
                clear_step(old(context).input_state@),
                flatten_batches(old(context).frame_input_events@),
                Seq::<A>::empty(),
            ),
            final(context).message_bus.contents(ACTION_MESSAGES) == final(self).input.resolved(),
            forall|kind: u64|
                kind != ACTION_MESSAGES ==> final(context).message_bus.contents(kind) == old(
                    context,
                ).message_bus.contents(kind),
            final(context).frame_input_events@.len() == 0,
            final(context).transitions == old(context).transitions,
            final(self).input.mapper_spec() == old(self).input.mapper_spec(),
            final(self).scene_manager == old(self).scene_manager,
    {
        self.input.process_frame(&mut context.input_state, &context.frame_input_events);
        context.frame_input_events.clear();
        context.message_bus.clear(ACTION_MESSAGES);
        let ghost self1 = *self;
        let ghost ist = context.input_state;
        let acts = self.input.actions();
        let n = acts.len();
        let mut i: usize = 0;
        while i < n
            invariant
                n == acts@.len(),
                *self == self1,
                acts@ == self1.input.resolved(),
                i <= n,
                context.message_bus.contents(ACTION_MESSAGES) == acts@.take(i as int),
                forall|kind: u64|
                    kind != ACTION_MESSAGES ==> context.message_bus.contents(kind) == old(
                        context,
                    ).message_bus.contents(kind),
                context.input_state == ist,
                context.frame_input_events@.len() == 0,
                context.transitions == old(context).transitions,
            decreases n - i,
        {
            let a = acts[i];
            context.message_bus.push(ACTION_MESSAGES, a);
            proof {
                assert(acts@.take(i as int).push(acts@[i as int]) =~= acts@.take(i as int + 1));
            }
            i += 1;
        }
        proof {
            assert(acts@.take(n as int) =~= acts@);
        }
    }

    /// Updates all engine systems for one tick: input digestion and
    /// action publishing, then updates of the active scene window, then
    /// application of the scene transitions queued so far.
    ///
    /// Whatever the scenes did, the stack only ever evolves by applying a
    /// sequence of transitions to it, and the set of registered scenes and
    /// the stored bindings are untouched.
    pub fn update(&mut self, context: &mut GlobalContext<K, A>)
        requires
            old(self).scene_manager.well_formed(),
        ensures
            final(self).scene_manager.well_formed(),
            forall|k: K|
                #[trigger] final(self).scene_manager.is_registered(k) == old(
                    self,
                ).scene_manager.is_registered(k),
            final(self).input.mapper_spec() == old(self).input.mapper_spec(),
            final(self).input.resolved() == resolve_steps(
                old(self).input.mapper_spec(),
                clear_step(old(context).input_state@),
                flatten_batches(old(context).frame_input_events@),
                Seq::<A>::empty(),
            ),
            exists|ts: Seq<SceneTransition<K>>|
                final(self).scene_manager.stack_keys() == stack_apply_all(
                    old(self).scene_manager.stack_keys(),
                    old(self).scene_manager.registered_set(),
                    ts,
                ),
    {
        self.digest_and_publish(context);
        self.scene_manager.update(context);
        let ghost ts = context.transitions@;
        let ghost mid_regs = self.scene_manager.registered_set();
        self.scene_manager.process_transitions(context);
        proof {
            assert(mid_regs =~= old(self).scene_manager.registered_set());
            assert(final(self).scene_manager.stack_keys() == stack_apply_all(
                old(self).scene_manager.stack_keys(),
                old(self).scene_manager.registered_set(),
                ts,
            ));
        }
    }
}

} // verus!
