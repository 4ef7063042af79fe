//! Builds normalized engine events from translated platform input.
//!
//! Modifier state arrives in separate platform notifications, so the
//! processor caches the most recent modifier set and stamps it onto every
//! key and button event it builds. Unmapped keys collapse to
//! `KeyCode::Unidentified` during translation and are filtered here,
//! before they reach the core.

use crate::input::event::{InputEvent, KeyCode, Modifiers, MouseButton};
use vstd::prelude::*;

verus! {

/// Builds engine input events, stamping each with the cached modifier
/// state.
pub struct InputProcessor {
    current_modifiers: Modifiers,
}

impl InputProcessor {
    /// Creates a processor with no modifiers held.
    pub fn new() -> (p: Self)
        ensures
            p.modifiers_spec() == (Modifiers { shift: false, ctrl: false, alt: false }),
    {
        InputProcessor { current_modifiers: Modifiers { shift: false, ctrl: false, alt: false } }
    }

    /// The cached modifier state.
    pub closed spec fn modifiers_spec(self) -> Modifiers {
        self.current_modifiers
    }

    /// Replaces the cached modifier state; it applies to all subsequent
    /// key and button events.
    pub fn update_modifiers(&mut self, modifiers: Modifiers)
        ensures
            final(self).modifiers_spec() == modifiers,
    {
        self.current_modifiers = modifiers;
    }

    /// Returns the cached modifier state.
    pub fn current_modifiers(&self) -> (m: Modifiers)
        ensures
            m == self.modifiers_spec(),
    {
        self.current_modifiers
    }

    /// Builds a key event with the cached modifiers; unidentified keys
    /// are filtered out.
    pub fn process_key_event(&self, key: KeyCode, pressed: bool) -> (r: Option<InputEvent>)
        ensures
            r == (if key == KeyCode::Unidentified {
                None
            } else if pressed {
                Some(InputEvent::KeyDown { key, modifiers: self.modifiers_spec() })
            } else {
                Some(InputEvent::KeyUp { key, modifiers: self.modifiers_spec() })
            }),
    {
        if key == KeyCode::Unidentified {
            return None;
        }
        if pressed {
            Some(InputEvent::KeyDown { key, modifiers: self.current_modifiers })
        } else {
            Some(InputEvent::KeyUp { key, modifiers: self.current_modifiers })
        }
    }

    /// Builds a mouse button event with the cached modifiers.
    pub fn process_mouse_button(&self, button: MouseButton, pressed: bool) -> (r: InputEvent)
        ensures
            r == (if pressed {
                InputEvent::MouseButtonDown { button, modifiers: self.modifiers_spec() }
            } else {
                InputEvent::MouseButtonUp { button, modifiers: self.modifiers_spec() }
            }),
    {
        if pressed {
            InputEvent::MouseButtonDown { button, modifiers: self.current_modifiers }
        } else {
            InputEvent::MouseButtonUp { button, modifiers: self.current_modifiers }
        }
    }

    /// Builds a mouse movement event (screen space, no modifiers).
    pub fn process_mouse_move(&self, x: i32, y: i32) -> (r: InputEvent)
        ensures
            r == (InputEvent::MouseMoved { x, y }),
    {
        InputEvent::MouseMoved { x, y }
    }
}

} // verus!
