//! Input subsystem: normalized events, per-tick input state, and the
//! context-sensitive mapping from raw input to application actions.
//!
//! [`InputSystem`] is the per-tick driver: it feeds the tick's event
//! batches to a [`state_tracker::StateTracker`] and resolves the tick's
//! actions from the pressed discrete events through an
//! [`action_mapper::ActionMapper`].

pub mod action;
pub mod action_mapper;
pub mod event;
pub mod state_tracker;

use action::{Action, InputContext};
use action_mapper::ActionMapper;
use event::{InputEvent, KeyCode, Modifiers, MouseButton};
use state_tracker::{clear_step, finalize_step, track_step, track_steps, StateTracker,
    TrackerState};
use vstd::prelude::*;

verus! {

/// All events of the batches, in submission order.
pub open spec fn flatten_batches(batches: Seq<Vec<InputEvent>>) -> Seq<InputEvent>
    decreases batches.len(),
{
    if batches.len() == 0 {
        Seq::empty()
    } else {
        batches[0]@ + flatten_batches(batches.drop_first())
    }
}

/// The actions accumulated after one event: a down event that causes a
/// press transition and resolves under the active context appends its
/// action, unless that action was already resolved this tick; every other
/// event leaves the accumulator unchanged.
pub open spec fn resolve_step<A: Action>(
    mapper: ActionMapper<A>,
    s: TrackerState,
    ev: InputEvent,
    acc: Seq<A>,
) -> Seq<A> {
    match ev {
        InputEvent::KeyDown { key, modifiers } => {
            if !s.keys_down.contains(key) {
                match mapper.key_binding(key, modifiers, mapper.context()) {
                    Some(a) => if acc.contains(a) {
                        acc
                    } else {
                        acc.push(a)
                    },
                    None => acc,
                }
            } else {
                acc
            }
        },
        InputEvent::MouseButtonDown { button, modifiers } => {
            if !s.buttons_down.contains(button) {
                match mapper.button_binding(button, modifiers, mapper.context()) {
                    Some(a) => if acc.contains(a) {
                        acc
                    } else {
                        acc.push(a)
                    },
                    None => acc,
                }
            } else {
                acc
            }
        },
        _ => acc,
    }
}

/// The actions accumulated over a sequence of events, resolving each
/// against the tracker state current when it arrives.
pub open spec fn resolve_steps<A: Action>(
    mapper: ActionMapper<A>,
    s: TrackerState,
    evs: Seq<InputEvent>,
    acc: Seq<A>,
) -> Seq<A>
    decreases evs.len(),
{
    if evs.len() == 0 {
        acc
    } else {
        resolve_steps(
            mapper,
            track_step(s, evs[0]),
            evs.drop_first(),
            resolve_step(mapper, s, evs[0], acc),
        )
    }
}

/// Resolving a sequence and then one more event is the same as resolving
/// the sequence extended by that event.
proof fn lemma_resolve_steps_snoc<A: Action>(
    mapper: ActionMapper<A>,
    s: TrackerState,
    evs: Seq<InputEvent>,
    ev: InputEvent,
    acc: Seq<A>,
)
    ensures
        resolve_steps(mapper, s, evs.push(ev), acc) == resolve_step(
            mapper,
            track_steps(s, evs),
            ev,
            resolve_steps(mapper, s, evs, acc),
        ),
    decreases evs.len(),
{
    if evs.len() == 0 {
        assert(evs.push(ev)[0] == ev);
        assert(evs.push(ev).drop_first() =~= Seq::<InputEvent>::empty());
        assert(resolve_steps(mapper, s, evs.push(ev), acc) == resolve_steps(
            mapper,
            track_step(s, ev),
            evs.push(ev).drop_first(),
            resolve_step(mapper, s, ev, acc),
        ));
        assert(track_steps(s, evs) == s);
        assert(resolve_steps(mapper, s, evs, acc) == acc);
    } else {
        assert(evs.push(ev)[0] == evs[0]);
        assert(evs.push(ev).drop_first() =~= evs.drop_first().push(ev));
        lemma_resolve_steps_snoc(
            mapper,
            track_step(s, evs[0]),
            evs.drop_first(),
            ev,
            resolve_step(mapper, s, evs[0], acc),
        );
        assert(resolve_steps(mapper, s, evs.push(ev), acc) == resolve_steps(
            mapper,
            track_step(s, evs[0]),
            evs.drop_first().push(ev),
            resolve_step(mapper, s, evs[0], acc),
        ));
        assert(track_steps(s, evs) == track_steps(track_step(s, evs[0]), evs.drop_first()));
        assert(resolve_steps(mapper, s, evs, acc) == resolve_steps(
            mapper,
            track_step(s, evs[0]),
            evs.drop_first(),
            resolve_step(mapper, s, evs[0], acc),
        ));
    }
}

/// Flattening a batch list extended by one batch appends that batch's
/// events.
proof fn lemma_flatten_snoc(batches: Seq<Vec<InputEvent>>, b: Vec<InputEvent>)
    ensures
        flatten_batches(batches.push(b)) == flatten_batches(batches) + b@,
    decreases batches.len(),
{
    if batches.len() == 0 {
        assert(batches.push(b)[0] == b);
        assert(batches.push(b).drop_first() =~= Seq::<Vec<InputEvent>>::empty());
        assert(flatten_batches(batches.push(b)) == b@ + flatten_batches(
            Seq::<Vec<InputEvent>>::empty(),
        ));
        assert(b@ + Seq::<InputEvent>::empty() =~= b@);
        assert(flatten_batches(batches) + b@ =~= b@);
    } else {
        assert(batches.push(b)[0] == batches[0]);
        assert(batches.push(b).drop_first() =~= batches.drop_first().push(b));
        lemma_flatten_snoc(batches.drop_first(), b);
        assert(flatten_batches(batches.push(b)) == batches[0]@ + flatten_batches(
            batches.drop_first().push(b),
        ));
        assert(batches[0]@ + (flatten_batches(batches.drop_first()) + b@) =~= (batches[0]@
            + flatten_batches(batches.drop_first())) + b@);
    }
}

/// Appends an action unless an equal action is already present.
fn push_unique<A: Action>(v: &mut Vec<A>, a: A)
    ensures
        final(v)@ == (if old(v)@.contains(a) {
            old(v)@
        } else {
            old(v)@.push(a)
        }),
{
    let n = v.len();
    let mut i: usize = 0;
    while i < n
        invariant
            n == v@.len(),
            i <= n,
            v@ == old(v)@,
            forall|j: int| 0 <= j < i ==> v@[j] != a,
        decreases n - i,
    {
        if v[i].same_action(&a) {
            proof {
                assert(v@.contains(a));
            }
            return ;
        }
        i += 1;
    }
    proof {
        if old(v)@.contains(a) {
            let j = choose|j: int| 0 <= j < old(v)@.len() && old(v)@[j] == a;
            assert(false);
        }
    }
    v.push(a);
}

/// The per-tick input driver: digests the tick's event batches into the
/// input state and publishes the tick's resolved actions.
pub struct InputSystem<A: Action> {
    mapper: ActionMapper<A>,
    actions: Vec<A>,
}

impl<A: Action> InputSystem<A> {
    /// The mapper holding this system's bindings and active context.
    pub closed spec fn mapper_spec(self) -> ActionMapper<A> {
        self.mapper
    }

    /// The actions resolved during the most recent tick, in resolution
    /// order, each at most once.
    pub closed spec fn resolved(self) -> Seq<A> {
        self.actions@
    }

    /// The action a key resolves to under the given modifiers and context.
    pub open spec fn key_binding(self, key: KeyCode, m: Modifiers, c: InputContext) -> Option<A> {
        self.mapper_spec().key_binding(key, m, c)
    }

    /// The action a mouse button resolves to under the given modifiers and
    /// context.
    pub open spec fn button_binding(self, b: MouseButton, m: Modifiers, c: InputContext) -> Option<
        A,
    > {
        self.mapper_spec().button_binding(b, m, c)
    }

    /// The currently active input context.
    pub open spec fn context(self) -> InputContext {
        self.mapper_spec().context()
    }

    /// Creates an input system with no bindings, the primary context
    /// active, and no resolved actions.
    pub fn new() -> (sys: Self)
        ensures
            sys.context() == InputContext::Primary,
            forall|k: KeyCode, m: Modifiers, c: InputContext|
                #[trigger] sys.key_binding(k, m, c) == None::<A>,
            forall|b: MouseButton, m: Modifiers, c: InputContext|
                #[trigger] sys.button_binding(b, m, c) == None::<A>,
            sys.resolved() == Seq::<A>::empty(),
    {
        InputSystem { mapper: ActionMapper::new(), actions: Vec::new() }
    }

    /// Binds a key to an action in a context (no modifiers).
    pub fn bind_key(&mut self, key: KeyCode, action: A, context: InputContext)
        ensures
            final(self).context() == old(self).context(),
            final(self).resolved() == old(self).resolved(),
            forall|k: KeyCode, m: Modifiers, c: InputContext|
                #[trigger] final(self).key_binding(k, m, c) == (if k == key && m == (Modifiers {
                    shift: false,
                    ctrl: false,
                    alt: false,
                }) && c == context {
                    Some(action)
                } else {
                    old(self).key_binding(k, m, c)
                }),
            forall|b: MouseButton, m: Modifiers, c: InputContext|
                #[trigger] final(self).button_binding(b, m, c) == old(self).button_binding(b, m, c),
    {
        self.mapper.bind_key(key, action, context);
    }

    /// Binds a key with exact modifiers to an action in a context.
    pub fn bind_key_with_mods(
        &mut self,
        key: KeyCode,
        modifiers: Modifiers,
        action: A,
        context: InputContext,
    )
        ensures
            final(self).context() == old(self).context(),
            final(self).resolved() == old(self).resolved(),
            forall|k: KeyCode, m: Modifiers, c: InputContext|
                #[trigger] final(self).key_binding(k, m, c) == (if k == key && m == modifiers && c
                    == context {
                    Some(action)
                } else {
                    old(self).key_binding(k, m, c)
                }),
            forall|b: MouseButton, m: Modifiers, c: InputContext|
                #[trigger] final(self).button_binding(b, m, c) == old(self).button_binding(b, m, c),
    {
        self.mapper.bind_key_with_mods(key, modifiers, action, context);
    }

    /// Binds a mouse button to an action in a context (no modifiers).
    pub fn bind_mouse(&mut self, button: MouseButton, action: A, context: InputContext)
        ensures
            final(self).context() == old(self).context(),
            final(self).resolved() == old(self).resolved(),
            forall|b: MouseButton, m: Modifiers, c: InputContext|
                #[trigger] final(self).button_binding(b, m, c) == (if b == button && m
                    == (Modifiers { shift: false, ctrl: false, alt: false }) && c == context {
                    Some(action)
                } else {
                    old(self).button_binding(b, m, c)
                }),
            forall|k: KeyCode, m: Modifiers, c: InputContext|
                #[trigger] final(self).key_binding(k, m, c) == old(self).key_binding(k, m, c),
    {
        self.mapper.bind_mouse(button, action, context);
    }

    /// Binds a mouse button with exact modifiers to an action in a
    /// context.
    pub fn bind_mouse_with_mods(
        &mut self,
        button: MouseButton,
        modifiers: Modifiers,
        action: A,
        context: InputContext,
    )
        ensures
            final(self).context() == old(self).context(),
            final(self).resolved() == old(self).resolved(),
            forall|b: MouseButton, m: Modifiers, c: InputContext|
                #[trigger] final(self).button_binding(b, m, c) == (if b == button && m == modifiers
                    && c == context {
                    Some(action)
                } else {
                    old(self).button_binding(b, m, c)
                }),
            forall|k: KeyCode, m: Modifiers, c: InputContext|
                #[trigger] final(self).key_binding(k, m, c) == old(self).key_binding(k, m, c),
    {
        self.mapper.bind_mouse_with_mods(button, modifiers, action, context);
    }

    /// Removes the no-modifier binding for a key in a context.
    pub fn unbind_key(&mut self, key: KeyCode, context: InputContext)
        ensures
            final(self).context() == old(self).context(),
            final(self).resolved() == old(self).resolved(),
            forall|k: KeyCode, m: Modifiers, c: InputContext|
                #[trigger] final(self).key_binding(k, m, c) == (if k == key && m == (Modifiers {
                    shift: false,
                    ctrl: false,
                    alt: false,
                }) && c == context {
                    None
                } else {
                    old(self).key_binding(k, m, c)
                }),
            forall|b: MouseButton, m: Modifiers, c: InputContext|
                #[trigger] final(self).button_binding(b, m, c) == old(self).button_binding(b, m, c),
    {
        self.mapper.unbind_key(key, context);
    }

    /// Removes every binding for a key in a context, across all modifier
    /// combinations.
    pub fn unbind_key_all_variants(&mut self, key: KeyCode, context: InputContext)
        ensures
            final(self).context() == old(self).context(),
            final(self).resolved() == old(self).resolved(),
            forall|k: KeyCode, m: Modifiers, c: InputContext|
                #[trigger] final(self).key_binding(k, m, c) == (if k == key && c == context {
                    None
                } else {
                    old(self).key_binding(k, m, c)
                }),
            forall|b: MouseButton, m: Modifiers, c: InputContext|
                #[trigger] final(self).button_binding(b, m, c) == old(self).button_binding(b, m, c),
    {
        self.mapper.unbind_key_all_variants(key, context);
    }

    /// Sets the active input context; stored bindings are unchanged.
    pub fn set_context(&mut self, context: InputContext)
        ensures
            final(self).context() == context,
            final(self).resolved() == old(self).resolved(),
            forall|k: KeyCode, m: Modifiers, c: InputContext|
                #[trigger] final(self).key_binding(k, m, c) == old(self).key_binding(k, m, c),
            forall|b: MouseButton, m: Modifiers, c: InputContext|
                #[trigger] final(self).button_binding(b, m, c) == old(self).button_binding(b, m, c),
    {
        self.mapper.set_context(context);
    }

    /// Returns the currently active context.
    pub fn current_context(&self) -> (c: InputContext)
        ensures
            c == self.context(),
    {
        self.mapper.current_context()
    }

    /// Returns the actions resolved during the most recent tick.
    pub fn actions(&self) -> (r: &Vec<A>)
        ensures
            r@ == self.resolved(),
    {
        &self.actions
    }

    /// Runs one tick of input digestion: clears the tracker's per-tick
    /// deltas, processes every batch in submission order, finalizes the
    /// mouse delta, and replaces the previous tick's resolved actions with
    /// the union of actions resolved from this tick's pressed discrete
    /// events.
    pub fn process_frame(&mut self, tracker: &mut StateTracker, batches: &Vec<Vec<InputEvent>>)
        ensures
            final(tracker)@ == finalize_step(
                track_steps(clear_step(old(tracker)@), flatten_batches(batches@)),
            ),
            final(self).mapper_spec() == old(self).mapper_spec(),
            final(self).resolved() == resolve_steps(
                old(self).mapper_spec(),
                clear_step(old(tracker)@),
                flatten_batches(batches@),
                Seq::<A>::empty(),
            ),
    {
        tracker.clear();
        self.actions.clear();
        let ghost s1 = clear_step(old(tracker)@);
        let ghost mapper0 = self.mapper;
        let mut done: Ghost<Seq<InputEvent>> = Ghost(Seq::empty());
        let nb = batches.len();
        let mut bi: usize = 0;
        while bi < nb
            invariant
                nb == batches@.len(),
                bi <= nb,
                self.mapper == mapper0,
                mapper0 == old(self).mapper,
                tracker@ == track_steps(s1, done@),
                self.actions@ == resolve_steps(mapper0, s1, done@, Seq::<A>::empty()),
                done@ == flatten_batches(batches@.take(bi as int)),
                s1 == clear_step(old(tracker)@),
            decreases nb - bi,
        {
            let batch = &batches[bi];
            let ne = batch.len();
            let mut ei: usize = 0;
            while ei < ne
                invariant
                    nb == batches@.len(),
                    bi < nb,
                    batch == &batches@[bi as int],
                    ne == batch@.len(),
                    ei <= ne,
                    self.mapper == mapper0,
                    mapper0 == old(self).mapper,
                    tracker@ == track_steps(s1, done@),
                    self.actions@ == resolve_steps(mapper0, s1, done@, Seq::<A>::empty()),
                    done@ == flatten_batches(batches@.take(bi as int)) + batch@.take(ei as int),
                    s1 == clear_step(old(tracker)@),
                decreases ne - ei,
            {
                let ev = &batch[ei];
                let ghost acc0 = self.actions@;
                match ev {
                    InputEvent::KeyDown { key, modifiers } => {
                        if !tracker.is_key_down(*key) {
                            match self.mapper.map_key(*key, *modifiers) {
                                Some(a) => push_unique(&mut self.actions, a),
                                None => {},
                            }
                        }
                    },
                    InputEvent::MouseButtonDown { button, modifiers } => {
                        if !tracker.is_button_down(*button) {
                            match self.mapper.map_button(*button, *modifiers) {
                                Some(a) => push_unique(&mut self.actions, a),
                                None => {},
                            }
                        }
                    },
                    _ => {},
                }
                proof {
                    assert(self.actions@ == resolve_step(
                        mapper0,
                        tracker@,
                        batch@[ei as int],
                        acc0,
                    ));
                }
                tracker.process_event(ev);
                proof {
                    state_tracker::lemma_track_steps_snoc(s1, done@, batch@[ei as int]);
                    lemma_resolve_steps_snoc(
                        mapper0,
                        s1,
                        done@,
                        batch@[ei as int],
                        Seq::<A>::empty(),
                    );
                    assert(batch@.take(ei as int).push(batch@[ei as int]) =~= batch@.take(
                        ei as int + 1,
                    ));
                    assert(done@.push(batch@[ei as int]) =~= flatten_batches(
                        batches@.take(bi as int),
                    ) + batch@.take(ei as int + 1));
                }
                done = Ghost(done@.push(batch@[ei as int]));
                ei += 1;
            }
            proof {
                assert(batch@.take(ne as int) =~= batch@);
                lemma_flatten_snoc(batches@.take(bi as int), batches@[bi as int]);
                assert(batches@.take(bi as int).push(batches@[bi as int]) =~= batches@.take(
                    bi as int + 1,
                ));
            }
            bi += 1;
        }
        proof {
            assert(batches@.take(nb as int) =~= batches@);
        }
        tracker.finalize_frame();
    }
}

} // verus!
