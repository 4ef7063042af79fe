//! Mapping from raw input to application actions.
//!
//! Bindings are keyed by (physical key or button, exact modifiers, input
//! context) and resolve to an application-defined action. Rebinding an
//! occupied slot overwrites it (last write wins). Only bindings in the
//! active context resolve, and modifiers must match exactly: a binding for
//! Ctrl does not match an incoming Ctrl+Shift event.

use crate::input::action::{Action, InputContext};
use crate::input::event::{InputEvent, KeyCode, Modifiers, MouseButton};
use vstd::prelude::*;

verus! {

/// A physical input slot: a keyboard key or a mouse button.
#[derive(Debug, Clone, Copy, PartialEq, Eq, Structural)]
pub(crate) enum InputSlot {
    Key(KeyCode),
    Button(MouseButton),
}

/// One binding: a slot, the exact modifiers it requires, the context it
/// belongs to, and the action it resolves to.
#[derive(Clone, Copy)]
pub(crate) struct Binding<A: Action> {
    pub slot: InputSlot,
    pub modifiers: Modifiers,
    pub context: InputContext,
    pub action: A,
}

/// Whether the entry at index `i` binds the given slot, modifiers and
/// context.
pub(crate) open spec fn binds_at<A: Action>(
    bs: Seq<Binding<A>>,
    i: int,
    slot: InputSlot,
    m: Modifiers,
    c: InputContext,
) -> bool {
    &&& bs[i].slot == slot
    &&& bs[i].modifiers == m
    &&& bs[i].context == c
}

/// Whether some entry binds the given slot, modifiers and context.
pub(crate) open spec fn has_binding<A: Action>(
    bs: Seq<Binding<A>>,
    slot: InputSlot,
    m: Modifiers,
    c: InputContext,
) -> bool {
    exists|i: int| 0 <= i < bs.len() && #[trigger] binds_at(bs, i, slot, m, c)
}

/// The index of the entry binding the given slot, modifiers and context,
/// when one exists.
pub(crate) open spec fn binding_index<A: Action>(
    bs: Seq<Binding<A>>,
    slot: InputSlot,
    m: Modifiers,
    c: InputContext,
) -> int {
    choose|i: int| 0 <= i < bs.len() && #[trigger] binds_at(bs, i, slot, m, c)
}

/// The action bound to the given slot, modifiers and context, if any.
pub(crate) open spec fn lookup<A: Action>(
    bs: Seq<Binding<A>>,
    slot: InputSlot,
    m: Modifiers,
    c: InputContext,
) -> Option<A> {
    if has_binding(bs, slot, m, c) {
        Some(bs[binding_index(bs, slot, m, c)].action)
    } else {
        None
    }
}

/// No two entries bind the same (slot, modifiers, context) triple.
pub(crate) open spec fn table_distinct<A: Action>(bs: Seq<Binding<A>>) -> bool {
    forall|i: int, j: int|
        0 <= i < j < bs.len() ==> !(#[trigger] bs[i].slot == #[trigger] bs[j].slot
            && bs[i].modifiers == bs[j].modifiers && bs[i].context == bs[j].context)
}

/// Maps input events to actions via (slot, modifiers, context) bindings.
///
/// Only bindings in the active context resolve to actions; switching the
/// context never alters stored bindings, only which of them resolve.
pub struct ActionMapper<A: Action> {
    bindings: Vec<Binding<A>>,
    current_context: InputContext,
}

impl<A: Action> ActionMapper<A> {
    #[verifier::type_invariant]
    closed spec fn wf(self) -> bool {
        table_distinct(self.bindings@)
    }

    /// The action a key resolves to under the given modifiers and context.
    pub closed spec fn key_binding(self, key: KeyCode, m: Modifiers, c: InputContext) -> Option<
        A,
    > {
        lookup(self.bindings@, InputSlot::Key(key), m, c)
    }

    /// The action a mouse button resolves to under the given modifiers and
    /// context.
    pub closed spec fn button_binding(
        self,
        button: MouseButton,
        m: Modifiers,
        c: InputContext,
    ) -> Option<A> {
        lookup(self.bindings@, InputSlot::Button(button), m, c)
    }

    /// The currently active input context.
    pub closed spec fn context(self) -> InputContext {
        self.current_context
    }

    /// Creates a new mapper with the primary context active and no
    /// bindings.
    pub fn new() -> (mapper: Self)
        ensures
            mapper.context() == InputContext::Primary,
            forall|k: KeyCode, m: Modifiers, c: InputContext|
                #[trigger] mapper.key_binding(k, m, c) == None::<A>,
            forall|b: MouseButton, m: Modifiers, c: InputContext|
                #[trigger] mapper.button_binding(b, m, c) == None::<A>,
    {
        let mapper = ActionMapper { bindings: Vec::new(), current_context: InputContext::Primary };
        proof {
            assert forall|s: InputSlot, m: Modifiers, c: InputContext|
                lookup(mapper.bindings@, s, m, c) == None::<A> by {
                lemma_lookup_absent(mapper.bindings@, s, m, c);
            }
        }
        mapper
    }

    /// Stores a binding, overwriting any previous binding of the same
    /// (slot, modifiers, context) triple.
    fn bind(&mut self, slot: InputSlot, modifiers: Modifiers, context: InputContext, action: A)
        ensures
            final(self).context() == old(self).context(),
            forall|s: InputSlot, m: Modifiers, c: InputContext|
                #[trigger] lookup(final(self).bindings@, s, m, c) == (if s == slot && m
                    == modifiers && c == context {
                    Some(action)
                } else {
                    lookup(old(self).bindings@, s, m, c)
                }),
    {
        proof {
            use_type_invariant(&*self);
        }
        let mut bs: Vec<Binding<A>> = Vec::new();
        core::mem::swap(&mut bs, &mut self.bindings);
        let ghost bs0 = bs@;
        let n = bs.len();
        let mut i: usize = 0;
        while i < n
            invariant
                n == bs.len(),
                i <= n,
                bs@ == bs0,
                bs0 == old(self).bindings@,
                table_distinct(bs0),
                self.bindings@.len() == 0,
                self.current_context == old(self).current_context,
                forall|j: int| 0 <= j < i ==> !binds_at(bs0, j, slot, modifiers, context),
            decreases n - i,
        {
            let b = &bs[i];
            if b.slot == slot && b.modifiers == modifiers && b.context == context {
                let entry = &mut bs[i];
                entry.action = action;
                proof {
                    assert(binds_at(bs@, i as int, slot, modifiers, context));
                    lemma_lookup_after_update(bs0, bs@, i as int, slot, modifiers, context);
                }
                self.bindings = bs;
                return ;
            }
            i += 1;
        }
        bs.push(Binding { slot, modifiers, context, action });
        proof {
            lemma_lookup_after_append(bs0, bs@, slot, modifiers, context);
        }
        self.bindings = bs;
    }

    /// Removes the binding of the given (slot, modifiers, context) triple,
    /// if present.
    fn unbind(&mut self, slot: InputSlot, modifiers: Modifiers, context: InputContext)
        ensures
            final(self).context() == old(self).context(),
            forall|s: InputSlot, m: Modifiers, c: InputContext|
                #[trigger] lookup(final(self).bindings@, s, m, c) == (if s == slot && m
                    == modifiers && c == context {
                    None
                } else {
                    lookup(old(self).bindings@, s, m, c)
                }),
    {
        proof {
            use_type_invariant(&*self);
        }
        let mut bs: Vec<Binding<A>> = Vec::new();
        core::mem::swap(&mut bs, &mut self.bindings);
        let ghost bs0 = bs@;
        let n = bs.len();
        let mut i: usize = 0;
        while i < n
            invariant
                n == bs.len(),
                i <= n,
                bs@ == bs0,
                bs0 == old(self).bindings@,
                table_distinct(bs0),
                self.bindings@.len() == 0,
                self.current_context == old(self).current_context,
                forall|j: int| 0 <= j < i ==> !binds_at(bs0, j, slot, modifiers, context),
            decreases n - i,
        {
            let b = &bs[i];
            if b.slot == slot && b.modifiers == modifiers && b.context == context {
                let ghost ii = i as int;
                bs.remove(i);
                proof {
                    assert(binds_at(bs0, ii, slot, modifiers, context));
                    lemma_lookup_after_remove(bs0, bs@, ii, slot, modifiers, context);
                }
                self.bindings = bs;
                return ;
            }
            i += 1;
        }
        proof {
            lemma_lookup_absent(bs0, slot, modifiers, context);
            assert forall|s: InputSlot, m: Modifiers, c: InputContext|
                !(s == slot && m == modifiers && c == context) implies #[trigger] lookup(
                bs@,
                s,
                m,
                c,
            ) == lookup(bs0, s, m, c) by {}
        }
        self.bindings = bs;
    }

    /// Binds a key to an action in a context (no modifiers).
    pub fn bind_key(&mut self, key: KeyCode, action: A, context: InputContext)
        ensures
            final(self).context() == old(self).context(),
            forall|k: KeyCode, m: Modifiers, c: InputContext|
                #[trigger] final(self).key_binding(k, m, c) == (if k == key && m == (Modifiers {
                    shift: false,
                    ctrl: false,
                    alt: false,
                }) && c == context {
                    Some(action)
                } else {
                    old(self).key_binding(k, m, c)
                }),
            forall|b: MouseButton, m: Modifiers, c: InputContext|
                #[trigger] final(self).button_binding(b, m, c) == old(self).button_binding(b, m, c),
    {
        self.bind_key_with_mods(key, Modifiers::none(), action, context);
    }

    /// Binds a key with exact modifiers to an action in a context.
    pub fn bind_key_with_mods(
        &mut self,
        key: KeyCode,
        modifiers: Modifiers,
        action: A,
        context: InputContext,
    )
        ensures
            final(self).context() == old(self).context(),
            forall|k: KeyCode, m: Modifiers, c: InputContext|
                #[trigger] final(self).key_binding(k, m, c) == (if k == key && m == modifiers && c
                    == context {
                    Some(action)
                } else {
                    old(self).key_binding(k, m, c)
                }),
            forall|b: MouseButton, m: Modifiers, c: InputContext|
                #[trigger] final(self).button_binding(b, m, c) == old(self).button_binding(b, m, c),
    {
        self.bind(InputSlot::Key(key), modifiers, context, action);
    }

    /// Binds a mouse button to an action in a context (no modifiers).
    pub fn bind_mouse(&mut self, button: MouseButton, action: A, context: InputContext)
        ensures
            final(self).context() == old(self).context(),
            forall|b: MouseButton, m: Modifiers, c: InputContext|
                #[trigger] final(self).button_binding(b, m, c) == (if b == button && m
                    == (Modifiers { shift: false, ctrl: false, alt: false }) && c == context {
                    Some(action)
                } else {
                    old(self).button_binding(b, m, c)
                }),
            forall|k: KeyCode, m: Modifiers, c: InputContext|
                #[trigger] final(self).key_binding(k, m, c) == old(self).key_binding(k, m, c),
    {
        self.bind_mouse_with_mods(button, Modifiers::none(), action, context);
    }

    /// Binds a mouse button with exact modifiers to an action in a
    /// context.
    pub fn bind_mouse_with_mods(
        &mut self,
        button: MouseButton,
        modifiers: Modifiers,
        action: A,
        context: InputContext,
    )
        ensures
            final(self).context() == old(self).context(),
            forall|b: MouseButton, m: Modifiers, c: InputContext|
                #[trigger] final(self).button_binding(b, m, c) == (if b == button && m == modifiers
                    && c == context {
                    Some(action)
                } else {
                    old(self).button_binding(b, m, c)
                }),
            forall|k: KeyCode, m: Modifiers, c: InputContext|
                #[trigger] final(self).key_binding(k, m, c) == old(self).key_binding(k, m, c),
    {
        self.bind(InputSlot::Button(button), modifiers, context, action);
    }

    /// Removes the binding for a key with exact modifiers in a context.
    pub fn unbind_key_with_mods(&mut self, key: KeyCode, modifiers: Modifiers, context: InputContext)
        ensures
            final(self).context() == old(self).context(),
            forall|k: KeyCode, m: Modifiers, c: InputContext|
                #[trigger] final(self).key_binding(k, m, c) == (if k == key && m == modifiers && c
                    == context {
                    None
                } else {
                    old(self).key_binding(k, m, c)
                }),
            forall|b: MouseButton, m: Modifiers, c: InputContext|
                #[trigger] final(self).button_binding(b, m, c) == old(self).button_binding(b, m, c),
    {
        self.unbind(InputSlot::Key(key), modifiers, context);
    }

    /// Removes the no-modifier binding for a key in a context; modified
    /// variants stay bound.
    pub fn unbind_key(&mut self, key: KeyCode, context: InputContext)
        ensures
            final(self).context() == old(self).context(),
            forall|k: KeyCode, m: Modifiers, c: InputContext|
                #[trigger] final(self).key_binding(k, m, c) == (if k == key && m == (Modifiers {
                    shift: false,
                    ctrl: false,
                    alt: false,
                }) && c == context {
                    None
                } else {
                    old(self).key_binding(k, m, c)
                }),
            forall|b: MouseButton, m: Modifiers, c: InputContext|
                #[trigger] final(self).button_binding(b, m, c) == old(self).button_binding(b, m, c),
    {
        self.unbind_key_with_mods(key, Modifiers::none(), context);
    }

    /// Removes every binding for a key in a context, across all modifier
    /// combinations; other contexts are untouched.
    pub fn unbind_key_all_variants(&mut self, key: KeyCode, context: InputContext)
        ensures
            final(self).context() == old(self).context(),
            forall|k: KeyCode, m: Modifiers, c: InputContext|
                #[trigger] final(self).key_binding(k, m, c) == (if k == key && c == context {
                    None
                } else {
                    old(self).key_binding(k, m, c)
                }),
            forall|b: MouseButton, m: Modifiers, c: InputContext|
                #[trigger] final(self).button_binding(b, m, c) == old(self).button_binding(b, m, c),
    {
        self.unbind(InputSlot::Key(key), Modifiers::none(), context);
        self.unbind(InputSlot::Key(key), Modifiers::shift(), context);
        self.unbind(InputSlot::Key(key), Modifiers::ctrl(), context);
        self.unbind(InputSlot::Key(key), Modifiers::alt(), context);
        self.unbind(InputSlot::Key(key), Modifiers::shift_ctrl(), context);
        self.unbind(InputSlot::Key(key), Modifiers::shift_alt(), context);
        self.unbind(InputSlot::Key(key), Modifiers::ctrl_alt(), context);
        self.unbind(InputSlot::Key(key), Modifiers::all(), context);
    }

    /// Removes every binding for a mouse button in a context, across all
    /// modifier combinations; other contexts are untouched.
    pub fn unbind_mouse_all_variants(&mut self, button: MouseButton, context: InputContext)
        ensures
            final(self).context() == old(self).context(),
            forall|b: MouseButton, m: Modifiers, c: InputContext|
                #[trigger] final(self).button_binding(b, m, c) == (if b == button && c == context {
                    None
                } else {
                    old(self).button_binding(b, m, c)
                }),
            forall|k: KeyCode, m: Modifiers, c: InputContext|
                #[trigger] final(self).key_binding(k, m, c) == old(self).key_binding(k, m, c),
    {
        self.unbind(InputSlot::Button(button), Modifiers::none(), context);
        self.unbind(InputSlot::Button(button), Modifiers::shift(), context);
        self.unbind(InputSlot::Button(button), Modifiers::ctrl(), context);
        self.unbind(InputSlot::Button(button), Modifiers::alt(), context);
        self.unbind(InputSlot::Button(button), Modifiers::shift_ctrl(), context);
        self.unbind(InputSlot::Button(button), Modifiers::shift_alt(), context);
        self.unbind(InputSlot::Button(button), Modifiers::ctrl_alt(), context);
        self.unbind(InputSlot::Button(button), Modifiers::all(), context);
    }

    /// Removes the binding for a mouse button with exact modifiers in a
    /// context.
    pub fn unbind_mouse_with_mods(
        &mut self,
        button: MouseButton,
        modifiers: Modifiers,
        context: InputContext,
    )
        ensures
            final(self).context() == old(self).context(),
            forall|b: MouseButton, m: Modifiers, c: InputContext|
                #[trigger] final(self).button_binding(b, m, c) == (if b == button && m == modifiers
                    && c == context {
                    None
                } else {
                    old(self).button_binding(b, m, c)
                }),
            forall|k: KeyCode, m: Modifiers, c: InputContext|
                #[trigger] final(self).key_binding(k, m, c) == old(self).key_binding(k, m, c),
    {
        self.unbind(InputSlot::Button(button), modifiers, context);
    }

    /// Removes the no-modifier binding for a mouse button in a context;
    /// modified variants stay bound.
    pub fn unbind_mouse(&mut self, button: MouseButton, context: InputContext)
        ensures
            final(self).context() == old(self).context(),
            forall|b: MouseButton, m: Modifiers, c: InputContext|
                #[trigger] final(self).button_binding(b, m, c) == (if b == button && m
                    == (Modifiers { shift: false, ctrl: false, alt: false }) && c == context {
                    None
                } else {
                    old(self).button_binding(b, m, c)
                }),
            forall|k: KeyCode, m: Modifiers, c: InputContext|
                #[trigger] final(self).key_binding(k, m, c) == old(self).key_binding(k, m, c),
    {
        self.unbind_mouse_with_mods(button, Modifiers::none(), context);
    }

    /// Removes every key and mouse binding in a context; other contexts
    /// are untouched.
    pub fn clear_context(&mut self, context: InputContext)
        ensures
            final(self).context() == old(self).context(),
            forall|k: KeyCode, m: Modifiers, c: InputContext|
                #[trigger] final(self).key_binding(k, m, c) == (if c == context {
                    None
                } else {
                    old(self).key_binding(k, m, c)
                }),
            forall|b: MouseButton, m: Modifiers, c: InputContext|
                #[trigger] final(self).button_binding(b, m, c) == (if c == context {
                    None
                } else {
                    old(self).button_binding(b, m, c)
                }),
    {
        proof {
            use_type_invariant(&*self);
        }
        let mut bs: Vec<Binding<A>> = Vec::new();
        core::mem::swap(&mut bs, &mut self.bindings);
        let ghost bs0 = bs@;
        let mut kept: Vec<Binding<A>> = Vec::new();
        let n = bs.len();
        let mut i: usize = 0;
        proof {
            assert forall|s: InputSlot, m: Modifiers, c: InputContext|
                lookup(kept@, s, m, c) == None::<A> by {
                lemma_lookup_absent(kept@, s, m, c);
            }
            assert forall|s: InputSlot, m: Modifiers, c: InputContext|
                lookup(bs0.take(0), s, m, c) == None::<A> by {
                lemma_lookup_absent(bs0.take(0), s, m, c);
            }
        }
        while i < n
            invariant
                n == bs.len(),
                i <= n,
                bs@ == bs0,
                bs0 == old(self).bindings@,
                table_distinct(bs0),
                table_distinct(kept@),
                self.bindings@.len() == 0,
                self.current_context == old(self).current_context,
                forall|s: InputSlot, m: Modifiers|
                    #[trigger] lookup(kept@, s, m, context) == None::<A>,
                forall|s: InputSlot, m: Modifiers, c: InputContext|
                    c != context ==> #[trigger] lookup(kept@, s, m, c) == lookup(
                        bs0.take(i as int),
                        s,
                        m,
                        c,
                    ),
            decreases n - i,
        {
            let ghost kept0 = kept@;
            let b = &bs[i];
            proof {
                assert forall|j: int|
                    0 <= j < bs0.take(i as int).len() implies !binds_at(
                    bs0.take(i as int),
                    j,
                    bs0[i as int].slot,
                    bs0[i as int].modifiers,
                    bs0[i as int].context,
                ) by {}
                lemma_lookup_absent(
                    bs0.take(i as int),
                    bs0[i as int].slot,
                    bs0[i as int].modifiers,
                    bs0[i as int].context,
                );
                assert(bs0.take(i as int).push(bs0[i as int]) =~= bs0.take(i as int + 1));
                lemma_lookup_after_append(
                    bs0.take(i as int),
                    bs0.take(i as int + 1),
                    bs0[i as int].slot,
                    bs0[i as int].modifiers,
                    bs0[i as int].context,
                );
            }
            if !(b.context == context) {
                let entry = bs[i];
                kept.push(entry);
                proof {
                    assert(lookup(
                        kept0,
                        bs0[i as int].slot,
                        bs0[i as int].modifiers,
                        bs0[i as int].context,
                    ) == lookup(
                        bs0.take(i as int),
                        bs0[i as int].slot,
                        bs0[i as int].modifiers,
                        bs0[i as int].context,
                    ));
                    lemma_lookup_after_append(
                        kept0,
                        kept@,
                        bs0[i as int].slot,
                        bs0[i as int].modifiers,
                        bs0[i as int].context,
                    );
                }
            }
            i += 1;
        }
        proof {
            assert(bs0.take(n as int) =~= bs0);
        }
        self.bindings = kept;
    }

    /// Maps an input event to an action in the active context. Only down
    /// events resolve; up events and mouse movement never do.
    pub fn map_event(&self, event: &InputEvent) -> (r: Option<A>)
        ensures
            r == match *event {
                InputEvent::KeyDown { key, modifiers } => self.key_binding(
                    key,
                    modifiers,
                    self.context(),
                ),
                InputEvent::MouseButtonDown { button, modifiers } => self.button_binding(
                    button,
                    modifiers,
                    self.context(),
                ),
                _ => None,
            },
    {
        match event {
            InputEvent::KeyDown { key, modifiers } => self.map_key(*key, *modifiers),
            InputEvent::MouseButtonDown { button, modifiers } => self.map_button(
                *button,
                *modifiers,
            ),
            _ => None,
        }
    }

    /// Maps a key press with modifiers to an action in the active
    /// context.
    pub fn map_key(&self, key: KeyCode, modifiers: Modifiers) -> (r: Option<A>)
        ensures
            r == self.key_binding(key, modifiers, self.context()),
    {
        self.resolve(InputSlot::Key(key), modifiers)
    }

    /// Maps a mouse button press with modifiers to an action in the
    /// active context.
    pub fn map_button(&self, button: MouseButton, modifiers: Modifiers) -> (r: Option<A>)
        ensures
            r == self.button_binding(button, modifiers, self.context()),
    {
        self.resolve(InputSlot::Button(button), modifiers)
    }

    /// Looks up the action bound to a slot under the active context.
    fn resolve(&self, slot: InputSlot, modifiers: Modifiers) -> (r: Option<A>)
        ensures
            r == lookup(self.bindings@, slot, modifiers, self.context()),
    {
        proof {
            use_type_invariant(&*self);
        }
        let n = self.bindings.len();
        let mut i: usize = 0;
        while i < n
            invariant
                n == self.bindings.len(),
                i <= n,
                table_distinct(self.bindings@),
                forall|j: int|
                    0 <= j < i ==> !binds_at(
                        self.bindings@,
                        j,
                        slot,
                        modifiers,
                        self.current_context,
                    ),
            decreases n - i,
        {
            let b = &self.bindings[i];
            if b.slot == slot && b.modifiers == modifiers && b.context == self.current_context {
                proof {
                    assert(binds_at(self.bindings@, i as int, slot, modifiers, self.current_context));
                    let bi = binding_index(self.bindings@, slot, modifiers, self.current_context);
                    assert(binds_at(self.bindings@, bi, slot, modifiers, self.current_context));
                    assert(bi == i as int);
                }
                return Some(self.bindings[i].action);
            }
            i += 1;
        }
        proof {
            lemma_lookup_absent(self.bindings@, slot, modifiers, self.current_context);
        }
        None
    }

    /// Sets the active input context; stored bindings are unchanged.
    pub fn set_context(&mut self, context: InputContext)
        ensures
            final(self).context() == context,
            forall|k: KeyCode, m: Modifiers, c: InputContext|
                #[trigger] final(self).key_binding(k, m, c) == old(self).key_binding(k, m, c),
            forall|b: MouseButton, m: Modifiers, c: InputContext|
                #[trigger] final(self).button_binding(b, m, c) == old(self).button_binding(b, m, c),
    {
        proof {
            use_type_invariant(&*self);
        }
        self.current_context = context;
    }

    /// Returns the currently active context.
    pub fn current_context(&self) -> (c: InputContext)
        ensures
            c == self.context(),
    {
        self.current_context
    }
}

/// When no entry binds the triple, the lookup yields nothing.
proof fn lemma_lookup_absent<A: Action>(
    bs: Seq<Binding<A>>,
    slot: InputSlot,
    m: Modifiers,
    c: InputContext,
)
    requires
        forall|j: int| 0 <= j < bs.len() ==> !binds_at(bs, j, slot, m, c),
    ensures
        lookup(bs, slot, m, c) == None::<A>,
{
    if has_binding(bs, slot, m, c) {
        let j = binding_index(bs, slot, m, c);
        assert(binds_at(bs, j, slot, m, c));
    }
}

/// After overwriting the action of the entry at index `i`, the triple at
/// `i` resolves to the new entry's action and every other triple resolves
/// as before.
proof fn lemma_lookup_after_update<A: Action>(
    bs0: Seq<Binding<A>>,
    bs1: Seq<Binding<A>>,
    i: int,
    slot: InputSlot,
    m: Modifiers,
    c: InputContext,
)
    requires
        table_distinct(bs0),
        0 <= i < bs0.len(),
        bs1.len() == bs0.len(),
        binds_at(bs0, i, slot, m, c),
        binds_at(bs1, i, slot, m, c),
        forall|j: int| 0 <= j < bs0.len() && j != i ==> bs0[j] == bs1[j],
    ensures
        table_distinct(bs1),
        lookup(bs1, slot, m, c) == Some(bs1[i].action),
        forall|s2: InputSlot, m2: Modifiers, c2: InputContext|
            !(s2 == slot && m2 == m && c2 == c) ==> #[trigger] lookup(bs1, s2, m2, c2) == lookup(
                bs0,
                s2,
                m2,
                c2,
            ),
{
    assert(table_distinct(bs1));
    assert(has_binding(bs1, slot, m, c));
    let i1 = binding_index(bs1, slot, m, c);
    assert(binds_at(bs1, i1, slot, m, c));
    assert(i1 == i);
    assert forall|s2: InputSlot, m2: Modifiers, c2: InputContext|
        !(s2 == slot && m2 == m && c2 == c) implies #[trigger] lookup(bs1, s2, m2, c2) == lookup(
        bs0,
        s2,
        m2,
        c2,
    ) by {
        if has_binding(bs0, s2, m2, c2) {
            let j0 = binding_index(bs0, s2, m2, c2);
            assert(binds_at(bs0, j0, s2, m2, c2));
            assert(j0 != i);
            assert(binds_at(bs1, j0, s2, m2, c2));
            assert(has_binding(bs1, s2, m2, c2));
            let j1 = binding_index(bs1, s2, m2, c2);
            assert(binds_at(bs1, j1, s2, m2, c2));
            assert(j1 != i);
            assert(j1 == j0);
        } else {
            if has_binding(bs1, s2, m2, c2) {
                let j1 = binding_index(bs1, s2, m2, c2);
                assert(binds_at(bs1, j1, s2, m2, c2));
                assert(j1 != i);
                assert(binds_at(bs0, j1, s2, m2, c2));
            }
        }
    }
}

/// After appending an entry whose triple was absent, that triple resolves
/// to the new entry's action and every other triple resolves as before.
proof fn lemma_lookup_after_append<A: Action>(
    bs0: Seq<Binding<A>>,
    bs1: Seq<Binding<A>>,
    slot: InputSlot,
    m: Modifiers,
    c: InputContext,
)
    requires
        table_distinct(bs0),
        forall|j: int| 0 <= j < bs0.len() ==> !binds_at(bs0, j, slot, m, c),
        bs1.len() == bs0.len() + 1,
        forall|j: int| 0 <= j < bs0.len() ==> bs0[j] == bs1[j],
        binds_at(bs1, bs0.len() as int, slot, m, c),
    ensures
        table_distinct(bs1),
        lookup(bs1, slot, m, c) == Some(bs1[bs0.len() as int].action),
        forall|s2: InputSlot, m2: Modifiers, c2: InputContext|
            !(s2 == slot && m2 == m && c2 == c) ==> #[trigger] lookup(bs1, s2, m2, c2) == lookup(
                bs0,
                s2,
                m2,
                c2,
            ),
{
    let n = bs0.len() as int;
    assert forall|a: int, b: int|
        0 <= a < b < bs1.len() implies !(bs1[a].slot == bs1[b].slot && bs1[a].modifiers
        == bs1[b].modifiers && bs1[a].context == bs1[b].context) by {
        if b < n {
            assert(bs1[a] == bs0[a] && bs1[b] == bs0[b]);
        } else {
            assert(bs1[a] == bs0[a]);
            assert(!binds_at(bs0, a, slot, m, c));
            assert(bs1[b].slot == slot && bs1[b].modifiers == m && bs1[b].context == c);
        }
    }
    assert(table_distinct(bs1));
    assert(has_binding(bs1, slot, m, c));
    let i1 = binding_index(bs1, slot, m, c);
    assert(binds_at(bs1, i1, slot, m, c));
    assert(i1 == n);
    assert forall|s2: InputSlot, m2: Modifiers, c2: InputContext|
        !(s2 == slot && m2 == m && c2 == c) implies #[trigger] lookup(bs1, s2, m2, c2) == lookup(
        bs0,
        s2,
        m2,
        c2,
    ) by {
        if has_binding(bs0, s2, m2, c2) {
            let j0 = binding_index(bs0, s2, m2, c2);
            assert(binds_at(bs0, j0, s2, m2, c2));
            assert(binds_at(bs1, j0, s2, m2, c2));
            assert(has_binding(bs1, s2, m2, c2));
            let j1 = binding_index(bs1, s2, m2, c2);
            assert(binds_at(bs1, j1, s2, m2, c2));
            assert(j1 != n);
            assert(j1 == j0);
        } else {
            if has_binding(bs1, s2, m2, c2) {
                let j1 = binding_index(bs1, s2, m2, c2);
                assert(binds_at(bs1, j1, s2, m2, c2));
                assert(j1 != n);
                assert(binds_at(bs0, j1, s2, m2, c2));
            }
        }
    }
}

/// After removing the entry at index `i`, its triple resolves to nothing
/// and every other triple resolves as before.
proof fn lemma_lookup_after_remove<A: Action>(
    bs0: Seq<Binding<A>>,
    bs1: Seq<Binding<A>>,
    i: int,
    slot: InputSlot,
    m: Modifiers,
    c: InputContext,
)
    requires
        table_distinct(bs0),
        0 <= i < bs0.len(),
        binds_at(bs0, i, slot, m, c),
        bs1 == bs0.remove(i),
    ensures
        table_distinct(bs1),
        lookup(bs1, slot, m, c) == None::<A>,
        forall|s2: InputSlot, m2: Modifiers, c2: InputContext|
            !(s2 == slot && m2 == m && c2 == c) ==> #[trigger] lookup(bs1, s2, m2, c2) == lookup(
                bs0,
                s2,
                m2,
                c2,
            ),
{
    bs0.remove_ensures(i);
    assert forall|a: int, b: int|
        0 <= a < b < bs1.len() implies !(bs1[a].slot == bs1[b].slot && bs1[a].modifiers
        == bs1[b].modifiers && bs1[a].context == bs1[b].context) by {
        if b < i {
            assert(bs1[a] == bs0[a] && bs1[b] == bs0[b]);
        } else if a < i {
            assert(bs1[a] == bs0[a] && bs1[b] == bs0[b + 1]);
        } else {
            assert(bs1[a] == bs0[a + 1] && bs1[b] == bs0[b + 1]);
        }
    }
    assert forall|j: int| 0 <= j < bs1.len() implies !binds_at(bs1, j, slot, m, c) by {
        if j < i {
            assert(bs1[j] == bs0[j]);
        } else {
            assert(bs1[j] == bs0[j + 1]);
        }
    }
    lemma_lookup_absent(bs1, slot, m, c);
    assert forall|s2: InputSlot, m2: Modifiers, c2: InputContext|
        !(s2 == slot && m2 == m && c2 == c) implies #[trigger] lookup(bs1, s2, m2, c2) == lookup(
        bs0,
        s2,
        m2,
        c2,
    ) by {
        if has_binding(bs0, s2, m2, c2) {
            let j0 = binding_index(bs0, s2, m2, c2);
            assert(binds_at(bs0, j0, s2, m2, c2));
            assert(j0 != i);
            if j0 < i {
                assert(binds_at(bs1, j0, s2, m2, c2));
            } else {
                assert(bs1[j0 - 1] == bs0[j0]);
                assert(binds_at(bs1, j0 - 1, s2, m2, c2));
            }
            assert(has_binding(bs1, s2, m2, c2));
            let j1 = binding_index(bs1, s2, m2, c2);
            assert(binds_at(bs1, j1, s2, m2, c2));
            if j1 < i {
                assert(bs1[j1] == bs0[j1]);
                assert(j1 == j0);
            } else {
                assert(bs1[j1] == bs0[j1 + 1]);
                assert(j1 + 1 == j0);
            }
            assert(bs1[j1].action == bs0[j0].action);
        } else {
            if has_binding(bs1, s2, m2, c2) {
                let j1 = binding_index(bs1, s2, m2, c2);
                assert(binds_at(bs1, j1, s2, m2, c2));
                if j1 < i {
                    assert(binds_at(bs0, j1, s2, m2, c2));
                } else {
                    assert(bs1[j1] == bs0[j1 + 1]);
                    assert(binds_at(bs0, j1 + 1, s2, m2, c2));
                }
            }
        }
    }
}

} // verus!
