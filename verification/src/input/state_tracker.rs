//! Per-tick input state tracking.
//!
//! The tracker converts ordered event batches into persistent state (keys
//! and buttons held, mouse position, sticky modifiers) and per-tick deltas
//! (pressed and released sets, mouse delta). The tick lifecycle is
//! `clear()` then `process_events()` then `finalize_frame()` then queries.
//!
//! All operations are total over arbitrary event sequences: a duplicate
//! key-down while held and a spurious key-up while not held are no-ops,
//! and `Unidentified` events are ignored.

use crate::input::event::{InputEvent, KeyCode, Modifiers, MouseButton};
use crate::vecset::{set_contains, set_insert, set_remove};
use vstd::prelude::*;

verus! {

/// The mathematical state of the tracker: held sets, per-tick delta sets,
/// mouse position and delta, and sticky modifiers.
#[verifier::ext_equal]
pub struct TrackerState {
    pub keys_down: Set<KeyCode>,
    pub keys_pressed: Set<KeyCode>,
    pub keys_released: Set<KeyCode>,
    pub buttons_down: Set<MouseButton>,
    pub buttons_pressed: Set<MouseButton>,
    pub buttons_released: Set<MouseButton>,
    pub mouse_position: (int, int),
    pub mouse_delta: (int, int),
    pub last_mouse_position: (int, int),
    pub modifiers: Modifiers,
}

/// The tracker's starting state: nothing held, nothing pressed or
/// released, mouse at the origin with zero delta, no modifiers.
pub open spec fn initial_tracker_state() -> TrackerState {
    TrackerState {
        keys_down: Set::empty(),
        keys_pressed: Set::empty(),
        keys_released: Set::empty(),
        buttons_down: Set::empty(),
        buttons_pressed: Set::empty(),
        buttons_released: Set::empty(),
        mouse_position: (0, 0),
        mouse_delta: (0, 0),
        last_mouse_position: (0, 0),
        modifiers: Modifiers { shift: false, ctrl: false, alt: false },
    }
}

/// The effect of one event on the tracker state.
///
/// A key-down adds to the held set only if absent, and only then marks the
/// key pressed this tick; a key-up removes from the held set only if
/// present, and only then marks the key released. Mouse buttons follow the
/// same rules. Mouse movement overwrites the position, and every key or
/// button event overwrites the sticky modifiers with the value it carries.
pub open spec fn track_step(s: TrackerState, ev: InputEvent) -> TrackerState {
    match ev {
        InputEvent::KeyDown { key, modifiers } => {
            if s.keys_down.contains(key) {
                TrackerState { modifiers, ..s }
            } else {
                TrackerState {
                    keys_down: s.keys_down.insert(key),
                    keys_pressed: s.keys_pressed.insert(key),
                    modifiers,
                    ..s
                }
            }
        },
        InputEvent::KeyUp { key, modifiers } => {
            if s.keys_down.contains(key) {
                TrackerState {
                    keys_down: s.keys_down.remove(key),
                    keys_released: s.keys_released.insert(key),
                    modifiers,
                    ..s
                }
            } else {
                TrackerState { modifiers, ..s }
            }
        },
        InputEvent::MouseButtonDown { button, modifiers } => {
            if s.buttons_down.contains(button) {
                TrackerState { modifiers, ..s }
            } else {
                TrackerState {
                    buttons_down: s.buttons_down.insert(button),
                    buttons_pressed: s.buttons_pressed.insert(button),
                    modifiers,
                    ..s
                }
            }
        },
        InputEvent::MouseButtonUp { button, modifiers } => {
            if s.buttons_down.contains(button) {
                TrackerState {
                    buttons_down: s.buttons_down.remove(button),
                    buttons_released: s.buttons_released.insert(button),
                    modifiers,
                    ..s
                }
            } else {
                TrackerState { modifiers, ..s }
            }
        },
        InputEvent::MouseMoved { x, y } => {
            TrackerState { mouse_position: (x as int, y as int), ..s }
        },
        InputEvent::Unidentified => s,
    }
}

/// The effect of a sequence of events, processed in order.
pub open spec fn track_steps(s: TrackerState, evs: Seq<InputEvent>) -> TrackerState
    decreases evs.len(),
{
    if evs.len() == 0 {
        s
    } else {
        track_steps(track_step(s, evs[0]), evs.drop_first())
    }
}

/// The effect of a tick start: the per-tick delta sets are emptied and the
/// current mouse position is snapshotted as the last position; held state
/// and modifiers persist untouched.
pub open spec fn clear_step(s: TrackerState) -> TrackerState {
    TrackerState {
        keys_pressed: Set::empty(),
        keys_released: Set::empty(),
        buttons_pressed: Set::empty(),
        buttons_released: Set::empty(),
        last_mouse_position: s.mouse_position,
        ..s
    }
}

/// The effect of the tick end: the mouse delta becomes the difference
/// between the current position and the tick-start snapshot.
pub open spec fn finalize_step(s: TrackerState) -> TrackerState {
    TrackerState {
        mouse_delta: (
            s.mouse_position.0 - s.last_mouse_position.0,
            s.mouse_position.1 - s.last_mouse_position.1,
        ),
        ..s
    }
}

/// Tracks persistent input state and per-tick deltas.
///
/// The view of a tracker is its [`TrackerState`]; every mutating method
/// says exactly which [`TrackerState`] transition it performs.
pub struct StateTracker {
    keys_down: Vec<KeyCode>,
    mouse_buttons_down: Vec<MouseButton>,
    mouse_position: (i32, i32),
    modifiers: Modifiers,
    keys_pressed_this_frame: Vec<KeyCode>,
    keys_released_this_frame: Vec<KeyCode>,
    mouse_buttons_pressed_this_frame: Vec<MouseButton>,
    mouse_buttons_released_this_frame: Vec<MouseButton>,
    mouse_delta: (i64, i64),
    last_mouse_position: (i32, i32),
}

impl View for StateTracker {
    type V = TrackerState;

    closed spec fn view(&self) -> TrackerState {
        TrackerState {
            keys_down: self.keys_down@.to_set(),
            keys_pressed: self.keys_pressed_this_frame@.to_set(),
            keys_released: self.keys_released_this_frame@.to_set(),
            buttons_down: self.mouse_buttons_down@.to_set(),
            buttons_pressed: self.mouse_buttons_pressed_this_frame@.to_set(),
            buttons_released: self.mouse_buttons_released_this_frame@.to_set(),
            mouse_position: (self.mouse_position.0 as int, self.mouse_position.1 as int),
            mouse_delta: (self.mouse_delta.0 as int, self.mouse_delta.1 as int),
            last_mouse_position: (
                self.last_mouse_position.0 as int,
                self.last_mouse_position.1 as int,
            ),
            modifiers: self.modifiers,
        }
    }
}

impl StateTracker {
    /// The tracker's internal stores hold each element at most once.
    #[verifier::type_invariant]
    closed spec fn wf(self) -> bool {
        &&& self.keys_down@.no_duplicates()
        &&& self.keys_pressed_this_frame@.no_duplicates()
        &&& self.keys_released_this_frame@.no_duplicates()
        &&& self.mouse_buttons_down@.no_duplicates()
        &&& self.mouse_buttons_pressed_this_frame@.no_duplicates()
        &&& self.mouse_buttons_released_this_frame@.no_duplicates()
    }

    /// Creates a new state tracker with empty state.
    pub fn new() -> (t: Self)
        ensures
            t@ == initial_tracker_state(),
    {
        let t = StateTracker {
            keys_down: Vec::new(),
            mouse_buttons_down: Vec::new(),
            mouse_position: (0, 0),
            modifiers: Modifiers { shift: false, ctrl: false, alt: false },
            keys_pressed_this_frame: Vec::new(),
            keys_released_this_frame: Vec::new(),
            mouse_buttons_pressed_this_frame: Vec::new(),
            mouse_buttons_released_this_frame: Vec::new(),
            mouse_delta: (0, 0),
            last_mouse_position: (0, 0),
        };
        proof {
            assert(t@ =~= initial_tracker_state());
        }
        t
    }

    /// Starts a tick: clears the per-tick delta sets and snapshots the
    /// mouse position; held state and modifiers persist.
    pub fn clear(&mut self)
        ensures
            final(self)@ == clear_step(old(self)@),
    {
        proof {
            use_type_invariant(&*self);
        }
        self.keys_pressed_this_frame = Vec::new();
        self.keys_released_this_frame = Vec::new();
        self.mouse_buttons_pressed_this_frame = Vec::new();
        self.mouse_buttons_released_this_frame = Vec::new();
        self.last_mouse_position = self.mouse_position;
        proof {
            assert(self@ =~= clear_step(old(self)@));
        }
    }

    /// Processes one input event, updating held state, per-tick deltas,
    /// mouse position and sticky modifiers as [`track_step`] describes.
    pub fn process_event(&mut self, event: &InputEvent)
        ensures
            final(self)@ == track_step(old(self)@, *event),
    {
        proof {
            use_type_invariant(&*self);
        }
        match event {
            InputEvent::KeyDown { key, modifiers } => {
                self.modifiers = *modifiers;
                let mut held: Vec<KeyCode> = Vec::new();
                core::mem::swap(&mut held, &mut self.keys_down);
                if set_insert(&mut held, *key) {
                    let mut pressed: Vec<KeyCode> = Vec::new();
                    core::mem::swap(&mut pressed, &mut self.keys_pressed_this_frame);
                    set_insert(&mut pressed, *key);
                    self.keys_pressed_this_frame = pressed;
                }
                self.keys_down = held;
                proof {
                    assert(self@ =~= track_step(old(self)@, *event));
                }
            },
            InputEvent::KeyUp { key, modifiers } => {
                self.modifiers = *modifiers;
                let mut held: Vec<KeyCode> = Vec::new();
                core::mem::swap(&mut held, &mut self.keys_down);
                if set_remove(&mut held, *key) {
                    let mut released: Vec<KeyCode> = Vec::new();
                    core::mem::swap(&mut released, &mut self.keys_released_this_frame);
                    set_insert(&mut released, *key);
                    self.keys_released_this_frame = released;
                }
                self.keys_down = held;
                proof {
                    assert(self@ =~= track_step(old(self)@, *event));
                }
            },
            InputEvent::MouseButtonDown { button, modifiers } => {
                self.modifiers = *modifiers;
                let mut held: Vec<MouseButton> = Vec::new();
                core::mem::swap(&mut held, &mut self.mouse_buttons_down);
                if set_insert(&mut held, *button) {
                    let mut pressed: Vec<MouseButton> = Vec::new();
                    core::mem::swap(&mut pressed, &mut self.mouse_buttons_pressed_this_frame);
                    set_insert(&mut pressed, *button);
                    self.mouse_buttons_pressed_this_frame = pressed;
                }
                self.mouse_buttons_down = held;
                proof {
                    assert(self@ =~= track_step(old(self)@, *event));
                }
            },
            InputEvent::MouseButtonUp { button, modifiers } => {
                self.modifiers = *modifiers;
                let mut held: Vec<MouseButton> = Vec::new();
                core::mem::swap(&mut held, &mut self.mouse_buttons_down);
                if set_remove(&mut held, *button) {
                    let mut released: Vec<MouseButton> = Vec::new();
                    core::mem::swap(&mut released, &mut self.mouse_buttons_released_this_frame);
                    set_insert(&mut released, *button);
                    self.mouse_buttons_released_this_frame = released;
                }
                self.mouse_buttons_down = held;
                proof {
                    assert(self@ =~= track_step(old(self)@, *event));
                }
            },
            InputEvent::MouseMoved { x, y } => {
                self.mouse_position = (*x, *y);
                proof {
                    assert(self@ =~= track_step(old(self)@, *event));
                }
            },
            InputEvent::Unidentified => {
                proof {
                    assert(self@ =~= track_step(old(self)@, *event));
                }
            },
        }
    }

    /// Processes a batch of input events in submission order.
    pub fn process_events(&mut self, events: &Vec<InputEvent>)
        ensures
            final(self)@ == track_steps(old(self)@, events@),
    {
        let n = events.len();
        let mut i: usize = 0;
        while i < n
            invariant
                n == events@.len(),
                i <= n,
                self@ == track_steps(old(self)@, events@.take(i as int)),
            decreases n - i,
        {
            let ghost prev = self@;
            self.process_event(&events[i]);
            proof {
                lemma_track_steps_snoc(old(self)@, events@.take(i as int), events@[i as int]);
                assert(events@.take(i as int).push(events@[i as int]) =~= events@.take(
                    i as int + 1,
                ));
            }
            i += 1;
        }
        proof {
            assert(events@.take(n as int) =~= events@);
        }
    }

    /// Ends the tick: computes the mouse delta from the tick-start
    /// snapshot. Must run after all batches, before any query.
    pub fn finalize_frame(&mut self)
        ensures
            final(self)@ == finalize_step(old(self)@),
    {
        proof {
            use_type_invariant(&*self);
        }
        self.mouse_delta = (
            self.mouse_position.0 as i64 - self.last_mouse_position.0 as i64,
            self.mouse_position.1 as i64 - self.last_mouse_position.1 as i64,
        );
        proof {
            assert(self@ =~= finalize_step(old(self)@));
        }
    }

    /// Returns true if the key transitioned from not held to held this
    /// tick.
    pub fn is_key_pressed(&self, key: KeyCode) -> (r: bool)
        ensures
            r == self@.keys_pressed.contains(key),
    {
        set_contains(&self.keys_pressed_this_frame, key)
    }

    /// Returns true while the key is held.
    pub fn is_key_down(&self, key: KeyCode) -> (r: bool)
        ensures
            r == self@.keys_down.contains(key),
    {
        set_contains(&self.keys_down, key)
    }

    /// Returns true if the key transitioned from held to not held this
    /// tick.
    pub fn is_key_released(&self, key: KeyCode) -> (r: bool)
        ensures
            r == self@.keys_released.contains(key),
    {
        set_contains(&self.keys_released_this_frame, key)
    }

    /// Like [`Self::is_key_pressed`] but for mouse buttons.
    pub fn is_button_pressed(&self, button: MouseButton) -> (r: bool)
        ensures
            r == self@.buttons_pressed.contains(button),
    {
        set_contains(&self.mouse_buttons_pressed_this_frame, button)
    }

    /// Like [`Self::is_key_down`] but for mouse buttons.
    pub fn is_button_down(&self, button: MouseButton) -> (r: bool)
        ensures
            r == self@.buttons_down.contains(button),
    {
        set_contains(&self.mouse_buttons_down, button)
    }

    /// Like [`Self::is_key_released`] but for mouse buttons.
    pub fn is_button_released(&self, button: MouseButton) -> (r: bool)
        ensures
            r == self@.buttons_released.contains(button),
    {
        set_contains(&self.mouse_buttons_released_this_frame, button)
    }

    /// Returns the mouse position in screen coordinates (pixels, top-left
    /// origin).
    pub fn mouse_position(&self) -> (r: (i32, i32))
        ensures
            (r.0 as int, r.1 as int) == self@.mouse_position,
    {
        self.mouse_position
    }

    /// Returns the mouse movement delta for this tick; zero if the mouse
    /// did not move.
    pub fn mouse_delta(&self) -> (r: (i64, i64))
        ensures
            (r.0 as int, r.1 as int) == self@.mouse_delta,
    {
        self.mouse_delta
    }

    /// Returns the current sticky modifier state.
    pub fn modifiers(&self) -> (r: Modifiers)
        ensures
            r == self@.modifiers,
    {
        self.modifiers
    }

    /// Returns true if Shift is currently held.
    pub fn shift_held(&self) -> (r: bool)
        ensures
            r == self@.modifiers.shift,
    {
        self.modifiers.shift
    }

    /// Returns true if Ctrl is currently held.
    pub fn ctrl_held(&self) -> (r: bool)
        ensures
            r == self@.modifiers.ctrl,
    {
        self.modifiers.ctrl
    }

    /// Returns true if Alt is currently held.
    pub fn alt_held(&self) -> (r: bool)
        ensures
            r == self@.modifiers.alt,
    {
        self.modifiers.alt
    }

    /// Returns the keys currently held, each exactly once.
    pub fn keys_down(&self) -> (r: &Vec<KeyCode>)
        ensures
            forall|k: KeyCode| r@.contains(k) == self@.keys_down.contains(k),
    {
        &self.keys_down
    }

    /// Returns the keys pressed this tick, each exactly once.
    pub fn keys_pressed(&self) -> (r: &Vec<KeyCode>)
        ensures
            forall|k: KeyCode| r@.contains(k) == self@.keys_pressed.contains(k),
    {
        &self.keys_pressed_this_frame
    }

    /// Returns the keys released this tick, each exactly once.
    pub fn keys_released(&self) -> (r: &Vec<KeyCode>)
        ensures
            forall|k: KeyCode| r@.contains(k) == self@.keys_released.contains(k),
    {
        &self.keys_released_this_frame
    }

    /// Returns the mouse buttons currently held, each exactly once.
    pub fn buttons_down(&self) -> (r: &Vec<MouseButton>)
        ensures
            forall|b: MouseButton| r@.contains(b) == self@.buttons_down.contains(b),
    {
        &self.mouse_buttons_down
    }

    /// Returns the mouse buttons pressed this tick, each exactly once.
    pub fn buttons_pressed(&self) -> (r: &Vec<MouseButton>)
        ensures
            forall|b: MouseButton| r@.contains(b) == self@.buttons_pressed.contains(b),
    {
        &self.mouse_buttons_pressed_this_frame
    }

    /// Returns the mouse buttons released this tick, each exactly once.
    pub fn buttons_released(&self) -> (r: &Vec<MouseButton>)
        ensures
            forall|b: MouseButton| r@.contains(b) == self@.buttons_released.contains(b),
    {
        &self.mouse_buttons_released_this_frame
    }
}

impl Default for StateTracker {
    /// Same as [`StateTracker::new`].
    fn default() -> (t: Self)
        ensures
            t@ == initial_tracker_state(),
    {
        StateTracker::new()
    }
}

/// Processing a sequence and then one more event is the same as processing
/// the sequence extended by that event.
pub proof fn lemma_track_steps_snoc(s: TrackerState, evs: Seq<InputEvent>, ev: InputEvent)
    ensures
        track_steps(s, evs.push(ev)) == track_step(track_steps(s, evs), ev),
    decreases evs.len(),
{
    if evs.len() == 0 {
        assert(evs.push(ev)[0] == ev);
        assert(evs.push(ev).drop_first() =~= Seq::<InputEvent>::empty());
        assert(track_steps(s, evs.push(ev)) == track_steps(
            track_step(s, ev),
            evs.push(ev).drop_first(),
        ));
        assert(track_steps(track_step(s, ev), Seq::<InputEvent>::empty()) == track_step(s, ev));
        assert(track_steps(s, evs) == s);
    } else {
        assert(evs.push(ev).len() == evs.len() + 1);
        assert(evs.push(ev)[0] == evs[0]);
        assert(evs.push(ev).drop_first() =~= evs.drop_first().push(ev));
        lemma_track_steps_snoc(track_step(s, evs[0]), evs.drop_first(), ev);
        assert(track_steps(s, evs.push(ev)) == track_steps(
            track_step(s, evs[0]),
            evs.push(ev).drop_first(),
        ));
        assert(track_steps(track_step(s, evs[0]), evs.drop_first().push(ev)) == track_step(
            track_steps(track_step(s, evs[0]), evs.drop_first()),
            ev,
        ));
        assert(track_steps(s, evs) == track_steps(track_step(s, evs[0]), evs.drop_first()));
    }
}

/// There is a key-down event for `k` at position `i` of the tick's events,
/// at a moment when `k` is not held.
pub open spec fn key_press_transition(
    s: TrackerState,
    evs: Seq<InputEvent>,
    i: int,
    k: KeyCode,
) -> bool {
    &&& 0 <= i < evs.len()
    &&& match evs[i] {
        InputEvent::KeyDown { key, .. } => key == k,
        _ => false,
    }
    &&& !track_steps(s, evs.take(i)).keys_down.contains(k)
}

/// There is a key-up event for `k` at position `i` of the tick's events,
/// at a moment when `k` is held.
pub open spec fn key_release_transition(
    s: TrackerState,
    evs: Seq<InputEvent>,
    i: int,
    k: KeyCode,
) -> bool {
    &&& 0 <= i < evs.len()
    &&& match evs[i] {
        InputEvent::KeyUp { key, .. } => key == k,
        _ => false,
    }
    &&& track_steps(s, evs.take(i)).keys_down.contains(k)
}

proof fn lemma_pressed_iff_from(s: TrackerState, evs: Seq<InputEvent>, k: KeyCode)
    requires
        !s.keys_pressed.contains(k),
    ensures
        track_steps(s, evs).keys_pressed.contains(k) <==> exists|i: int|
            key_press_transition(s, evs, i, k),
    decreases evs.len(),
{
    if evs.len() == 0 {
        assert(track_steps(s, evs) == s);
        assert forall|i: int| !key_press_transition(s, evs, i, k) by {}
    } else {
        let pre = evs.drop_last();
        let e = evs.last();
        lemma_pressed_iff_from(s, pre, k);
        lemma_track_steps_snoc(s, pre, e);
        assert(pre.push(e) =~= evs);
        let mid = track_steps(s, pre);
        assert(track_steps(s, evs) == track_step(mid, e));
        assert(evs.take(pre.len() as int) =~= pre);
        assert forall|i: int| 0 <= i < pre.len() implies evs.take(i) =~= pre.take(i) by {}
        let fresh_press = match e {
            InputEvent::KeyDown { key, .. } => key == k && !mid.keys_down.contains(k),
            _ => false,
        };
        if fresh_press {
            assert(track_step(mid, e).keys_pressed.contains(k));
            assert(key_press_transition(s, evs, pre.len() as int, k));
        } else {
            assert(track_step(mid, e).keys_pressed.contains(k) == mid.keys_pressed.contains(k));
            if exists|i: int| key_press_transition(s, pre, i, k) {
                let i = choose|i: int| key_press_transition(s, pre, i, k);
                assert(key_press_transition(s, evs, i, k));
            }
            if exists|i: int| key_press_transition(s, evs, i, k) {
                let i = choose|i: int| key_press_transition(s, evs, i, k);
                if i < pre.len() {
                    assert(key_press_transition(s, pre, i, k));
                } else {
                    assert(i == pre.len());
                    assert(false);
                }
            }
        }
    }
}

proof fn lemma_released_iff_from(s: TrackerState, evs: Seq<InputEvent>, k: KeyCode)
    requires
        !s.keys_released.contains(k),
    ensures
        track_steps(s, evs).keys_released.contains(k) <==> exists|i: int|
            key_release_transition(s, evs, i, k),
    decreases evs.len(),
{
    if evs.len() == 0 {
        assert(track_steps(s, evs) == s);
        assert forall|i: int| !key_release_transition(s, evs, i, k) by {}
    } else {
        let pre = evs.drop_last();
        let e = evs.last();
        lemma_released_iff_from(s, pre, k);
        lemma_track_steps_snoc(s, pre, e);
        assert(pre.push(e) =~= evs);
        let mid = track_steps(s, pre);
        assert(track_steps(s, evs) == track_step(mid, e));
        assert(evs.take(pre.len() as int) =~= pre);
        assert forall|i: int| 0 <= i < pre.len() implies evs.take(i) =~= pre.take(i) by {}
        let fresh_release = match e {
            InputEvent::KeyUp { key, .. } => key == k && mid.keys_down.contains(k),
            _ => false,
        };
        if fresh_release {
            assert(track_step(mid, e).keys_released.contains(k));
            assert(key_release_transition(s, evs, pre.len() as int, k));
        } else {
            assert(track_step(mid, e).keys_released.contains(k) == mid.keys_released.contains(k));
            if exists|i: int| key_release_transition(s, pre, i, k) {
                let i = choose|i: int| key_release_transition(s, pre, i, k);
                assert(key_release_transition(s, evs, i, k));
            }
            if exists|i: int| key_release_transition(s, evs, i, k) {
                let i = choose|i: int| key_release_transition(s, evs, i, k);
                if i < pre.len() {
                    assert(key_release_transition(s, pre, i, k));
                } else {
                    assert(i == pre.len());
                    assert(false);
                }
            }
        }
    }
}

/// Within one tick, a key is reported pressed exactly when at least one
/// not-held-to-held transition occurred, and reported released exactly
/// when at least one held-to-not-held transition occurred. A key tapped
/// quickly is therefore both pressed and released in the same tick, with a
/// final held state of false.
pub proof fn lemma_pressed_released_iff_transition(
    s: TrackerState,
    evs: Seq<InputEvent>,
    k: KeyCode,
)
    ensures
        track_steps(clear_step(s), evs).keys_pressed.contains(k) <==> exists|i: int|
            key_press_transition(clear_step(s), evs, i, k),
        track_steps(clear_step(s), evs).keys_released.contains(k) <==> exists|i: int|
            key_release_transition(clear_step(s), evs, i, k),
{
    lemma_pressed_iff_from(clear_step(s), evs, k);
    lemma_released_iff_from(clear_step(s), evs, k);
}

proof fn lemma_position_stable(s: TrackerState, evs: Seq<InputEvent>)
    requires
        forall|i: int|
            0 <= i < evs.len() ==> !(#[trigger] evs[i] matches InputEvent::MouseMoved { .. }),
    ensures
        track_steps(s, evs).mouse_position == s.mouse_position,
        track_steps(s, evs).last_mouse_position == s.last_mouse_position,
    decreases evs.len(),
{
    if evs.len() > 0 {
        assert(!(evs[0] matches InputEvent::MouseMoved { .. }));
        assert(track_step(s, evs[0]).mouse_position == s.mouse_position);
        lemma_position_stable(track_step(s, evs[0]), evs.drop_first());
    }
}

/// For any tick whose events contain no mouse movement, the mouse delta
/// computed at the end of the tick is zero.
pub proof fn lemma_no_mouse_move_zero_delta(s: TrackerState, evs: Seq<InputEvent>)
    requires
        forall|i: int|
            0 <= i < evs.len() ==> !(#[trigger] evs[i] matches InputEvent::MouseMoved { .. }),
    ensures
        finalize_step(track_steps(clear_step(s), evs)).mouse_delta == (0int, 0int),
{
    lemma_position_stable(clear_step(s), evs);
}

proof fn lemma_delta_consistency_from(s: TrackerState, evs: Seq<InputEvent>, k: KeyCode)
    requires
        !s.keys_pressed.contains(k),
        !s.keys_released.contains(k),
    ensures
        track_steps(s, evs).keys_pressed.contains(k) && !track_steps(s, evs).keys_released.contains(
            k,
        ) ==> track_steps(s, evs).keys_down.contains(k),
        track_steps(s, evs).keys_released.contains(k) && !track_steps(s, evs).keys_pressed.contains(
            k,
        ) ==> !track_steps(s, evs).keys_down.contains(k),
    decreases evs.len(),
{
    if evs.len() > 0 {
        let pre = evs.drop_last();
        let e = evs.last();
        lemma_delta_consistency_from(s, pre, k);
        lemma_track_steps_snoc(s, pre, e);
        assert(pre.push(e) =~= evs);
    }
}

/// Within one tick the delta sets stay consistent with the held state:
/// a key reported pressed but not released ends the tick held, and a key
/// reported released but not pressed again ends the tick not held.
///
/// The unconditional inclusions do not hold: a key tapped quickly is
/// pressed yet ends the tick not held, and a key released and pressed
/// again is released yet ends the tick held. The transition counts of
/// [`lemma_pressed_released_iff_transition`] are the exact statement.
pub proof fn lemma_tick_delta_consistency(s: TrackerState, evs: Seq<InputEvent>, k: KeyCode)
    ensures
        ({
            let t = track_steps(clear_step(s), evs);
            &&& (t.keys_pressed.contains(k) && !t.keys_released.contains(k) ==> t.keys_down.contains(
                k,
            ))
            &&& (t.keys_released.contains(k) && !t.keys_pressed.contains(k)
                ==> !t.keys_down.contains(k))
        }),
{
    lemma_delta_consistency_from(clear_step(s), evs, k);
}

proof fn lemma_button_delta_consistency_from(s: TrackerState, evs: Seq<InputEvent>, b: MouseButton)
    requires
        !s.buttons_pressed.contains(b),
        !s.buttons_released.contains(b),
    ensures
        track_steps(s, evs).buttons_pressed.contains(b) && !track_steps(
            s,
            evs,
        ).buttons_released.contains(b) ==> track_steps(s, evs).buttons_down.contains(b),
        track_steps(s, evs).buttons_released.contains(b) && !track_steps(
            s,
            evs,
        ).buttons_pressed.contains(b) ==> !track_steps(s, evs).buttons_down.contains(b),
    decreases evs.len(),
{
    if evs.len() > 0 {
        let pre = evs.drop_last();
        let e = evs.last();
        lemma_button_delta_consistency_from(s, pre, b);
        lemma_track_steps_snoc(s, pre, e);
        assert(pre.push(e) =~= evs);
    }
}

/// The mouse-button counterpart of [`lemma_tick_delta_consistency`].
pub proof fn lemma_tick_button_delta_consistency(
    s: TrackerState,
    evs: Seq<InputEvent>,
    b: MouseButton,
)
    ensures
        ({
            let t = track_steps(clear_step(s), evs);
            &&& (t.buttons_pressed.contains(b) && !t.buttons_released.contains(b)
                ==> t.buttons_down.contains(b))
            &&& (t.buttons_released.contains(b) && !t.buttons_pressed.contains(b)
                ==> !t.buttons_down.contains(b))
        }),
{
    lemma_button_delta_consistency_from(clear_step(s), evs, b);
}

} // verus!
