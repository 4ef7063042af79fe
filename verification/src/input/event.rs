//! Normalized input event types, independent of any platform layer.
//!
//! Mouse movement is a continuous input: `MouseMoved` events are considered
//! equal regardless of their coordinates, so that rapid movement can be
//! coalesced to the latest sample. All other variants compare by variant
//! and payload, and modifier sets must match exactly.

use vstd::prelude::*;

verus! {

/// Physical mouse button identifier.
#[derive(Debug, Clone, Copy, PartialEq, Eq, Hash, Structural)]
pub enum MouseButton {
    /// Primary button (typically left).
    Left,
    /// Secondary button (typically right).
    Right,
    /// Middle button (wheel click).
    Middle,
    /// Any other button beyond the standard three.
    Other,
}

/// Physical keyboard key identifier based on key position, not character
/// output, so that controls behave the same on every keyboard layout.
#[derive(Debug, Clone, Copy, PartialEq, Eq, Hash, Structural)]
pub enum KeyCode {
    Digit0,
    Digit1,
    Digit2,
    Digit3,
    Digit4,
    Digit5,
    Digit6,
    Digit7,
    Digit8,
    Digit9,
    KeyA,
    KeyB,
    KeyC,
    KeyD,
    KeyE,
    KeyF,
    KeyG,
    KeyH,
    KeyI,
    KeyJ,
    KeyK,
    KeyL,
    KeyM,
    KeyN,
    KeyO,
    KeyP,
    KeyQ,
    KeyR,
    KeyS,
    KeyT,
    KeyU,
    KeyV,
    KeyW,
    KeyX,
    KeyY,
    KeyZ,
    ArrowDown,
    ArrowLeft,
    ArrowRight,
    ArrowUp,
    Space,
    Enter,
    Escape,
    Tab,
    Backspace,
    Delete,
    /// Fallback for unmapped keys; such events are ignored by the core.
    Unidentified,
}

/// Modifier key state for Shift, Ctrl and Alt.
///
/// Left and right variants are not distinguished. Bindings match modifiers
/// exactly: a binding for Ctrl does not match an incoming Ctrl+Shift event.
#[derive(Debug, Clone, Copy, PartialEq, Eq, Hash, Structural)]
pub struct Modifiers {
    pub shift: bool,
    pub ctrl: bool,
    pub alt: bool,
}

impl Modifiers {
    /// No modifiers held.
    pub fn none() -> (m: Modifiers)
        ensures
            !m.shift && !m.ctrl && !m.alt,
    {
        Modifiers { shift: false, ctrl: false, alt: false }
    }

    /// Shift only.
    pub fn shift() -> (m: Modifiers)
        ensures
            m.shift && !m.ctrl && !m.alt,
    {
        Modifiers { shift: true, ctrl: false, alt: false }
    }

    /// Ctrl only.
    pub fn ctrl() -> (m: Modifiers)
        ensures
            !m.shift && m.ctrl && !m.alt,
    {
        Modifiers { shift: false, ctrl: true, alt: false }
    }

    /// Alt only.
    pub fn alt() -> (m: Modifiers)
        ensures
            !m.shift && !m.ctrl && m.alt,
    {
        Modifiers { shift: false, ctrl: false, alt: true }
    }

    /// Shift + Ctrl.
    pub fn shift_ctrl() -> (m: Modifiers)
        ensures
            m.shift && m.ctrl && !m.alt,
    {
        Modifiers { shift: true, ctrl: true, alt: false }
    }

    /// Shift + Alt.
    pub fn shift_alt() -> (m: Modifiers)
        ensures
            m.shift && !m.ctrl && m.alt,
    {
        Modifiers { shift: true, ctrl: false, alt: true }
    }

    /// Ctrl + Alt.
    pub fn ctrl_alt() -> (m: Modifiers)
        ensures
            !m.shift && m.ctrl && m.alt,
    {
        Modifiers { shift: false, ctrl: true, alt: true }
    }

    /// All three modifiers held.
    pub fn all() -> (m: Modifiers)
        ensures
            m.shift && m.ctrl && m.alt,
    {
        Modifiers { shift: true, ctrl: true, alt: true }
    }
}

impl Default for Modifiers {
    /// Defaults to no modifiers held.
    fn default() -> (m: Self)
        ensures
            !m.shift && !m.ctrl && !m.alt,
    {
        Modifiers { shift: false, ctrl: false, alt: false }
    }
}

/// Low-level input event from the platform layer.
#[derive(Debug, Clone)]
pub enum InputEvent {
    /// Key pressed down.
    KeyDown { key: KeyCode, modifiers: Modifiers },
    /// Key released.
    KeyUp { key: KeyCode, modifiers: Modifiers },
    /// Mouse button pressed.
    MouseButtonDown { button: MouseButton, modifiers: Modifiers },
    /// Mouse button released.
    MouseButtonUp { button: MouseButton, modifiers: Modifiers },
    /// Mouse cursor moved (screen space, pixels, top-left origin).
    MouseMoved { x: i32, y: i32 },
    /// Unrecognized event (silently ignored).
    Unidentified,
}

/// Equality on events: by variant and payload, except that `MouseMoved`
/// compares by variant only, which lets a set of events coalesce rapid
/// movement to the most recent sample.
pub open spec fn event_eq(a: InputEvent, b: InputEvent) -> bool {
    match (a, b) {
        (
            InputEvent::KeyDown { key: ka, modifiers: ma },
            InputEvent::KeyDown { key: kb, modifiers: mb },
        ) => ka == kb && ma == mb,
        (
            InputEvent::KeyUp { key: ka, modifiers: ma },
            InputEvent::KeyUp { key: kb, modifiers: mb },
        ) => ka == kb && ma == mb,
        (
            InputEvent::MouseButtonDown { button: ba, modifiers: ma },
            InputEvent::MouseButtonDown { button: bb, modifiers: mb },
        ) => ba == bb && ma == mb,
        (
            InputEvent::MouseButtonUp { button: ba, modifiers: ma },
            InputEvent::MouseButtonUp { button: bb, modifiers: mb },
        ) => ba == bb && ma == mb,
        (InputEvent::MouseMoved { .. }, InputEvent::MouseMoved { .. }) => true,
        (InputEvent::Unidentified, InputEvent::Unidentified) => true,
        _ => false,
    }
}

/// The event with its modifier payload replaced; variants without a
/// modifier payload are returned unchanged.
pub open spec fn with_modifiers_spec(e: InputEvent, m: Modifiers) -> InputEvent {
    match e {
        InputEvent::KeyDown { key, modifiers } => InputEvent::KeyDown { key, modifiers: m },
        InputEvent::KeyUp { key, modifiers } => InputEvent::KeyUp { key, modifiers: m },
        InputEvent::MouseButtonDown { button, modifiers } => InputEvent::MouseButtonDown {
            button,
            modifiers: m,
        },
        InputEvent::MouseButtonUp { button, modifiers } => InputEvent::MouseButtonUp {
            button,
            modifiers: m,
        },
        _ => e,
    }
}

impl InputEvent {
    /// Returns this event with its modifiers replaced; a no-op for
    /// `MouseMoved` and `Unidentified`.
    pub fn with_modifiers(self, modifiers: Modifiers) -> (r: Self)
        ensures
            r == with_modifiers_spec(self, modifiers),
    {
        match self {
            InputEvent::KeyDown { key, modifiers: _ } => InputEvent::KeyDown { key, modifiers },
            InputEvent::KeyUp { key, modifiers: _ } => InputEvent::KeyUp { key, modifiers },
            InputEvent::MouseButtonDown { button, modifiers: _ } => InputEvent::MouseButtonDown {
                button,
                modifiers,
            },
            InputEvent::MouseButtonUp { button, modifiers: _ } => InputEvent::MouseButtonUp {
                button,
                modifiers,
            },
            other => other,
        }
    }
}

impl PartialEq for InputEvent {
    /// Equality by variant and payload; `MouseMoved` ignores coordinates.
    fn eq(&self, other: &Self) -> (r: bool) {
        match (self, other) {
            (
                InputEvent::KeyDown { key: ka, modifiers: ma },
                InputEvent::KeyDown { key: kb, modifiers: mb },
            ) => ka == kb && ma == mb,
            (
                InputEvent::KeyUp { key: ka, modifiers: ma },
                InputEvent::KeyUp { key: kb, modifiers: mb },
            ) => ka == kb && ma == mb,
            (
                InputEvent::MouseButtonDown { button: ba, modifiers: ma },
                InputEvent::MouseButtonDown { button: bb, modifiers: mb },
            ) => ba == bb && ma == mb,
            (
                InputEvent::MouseButtonUp { button: ba, modifiers: ma },
                InputEvent::MouseButtonUp { button: bb, modifiers: mb },
            ) => ba == bb && ma == mb,
            (InputEvent::MouseMoved { .. }, InputEvent::MouseMoved { .. }) => true,
            (InputEvent::Unidentified, InputEvent::Unidentified) => true,
            _ => false,
        }
    }
}

impl vstd::std_specs::cmp::PartialEqSpecImpl for InputEvent {
    open spec fn obeys_eq_spec() -> bool {
        true
    }

    open spec fn eq_spec(&self, other: &Self) -> bool {
        event_eq(*self, *other)
    }
}

impl Eq for InputEvent {}

} // verus!
