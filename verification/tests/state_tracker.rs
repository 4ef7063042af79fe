use aetheric_engine::input::event::{InputEvent, KeyCode, Modifiers, MouseButton};
use aetheric_engine::input::state_tracker::StateTracker;

fn key_down(key: KeyCode) -> InputEvent {
    InputEvent::KeyDown { key, modifiers: Modifiers::none() }
}

fn key_up(key: KeyCode) -> InputEvent {
    InputEvent::KeyUp { key, modifiers: Modifiers::none() }
}

fn mouse_down(btn: MouseButton) -> InputEvent {
    InputEvent::MouseButtonDown { button: btn, modifiers: Modifiers::none() }
}

fn mouse_up(btn: MouseButton) -> InputEvent {
    InputEvent::MouseButtonUp { button: btn, modifiers: Modifiers::none() }
}

fn mouse_move(x: i32, y: i32) -> InputEvent {
    InputEvent::MouseMoved { x, y }
}

#[test]
fn key_pressed_only_on_transition_frame() {
    let mut system = StateTracker::new();

    system.clear();
    system.process_events(&vec![key_down(KeyCode::KeyA)]);
    system.finalize_frame();
    assert!(system.is_key_pressed(KeyCode::KeyA));
    assert!(system.is_key_down(KeyCode::KeyA));

    system.clear();
    system.process_events(&vec![]);
    system.finalize_frame();
    assert!(!system.is_key_pressed(KeyCode::KeyA));
    assert!(system.is_key_down(KeyCode::KeyA));

    system.clear();
    system.process_events(&vec![key_up(KeyCode::KeyA)]);
    system.finalize_frame();
    assert!(!system.is_key_pressed(KeyCode::KeyA));
    assert!(!system.is_key_down(KeyCode::KeyA));
    assert!(system.is_key_released(KeyCode::KeyA));
}

#[test]
fn key_down_persists_across_frames() {
    let mut system = StateTracker::new();

    system.process_events(&vec![key_down(KeyCode::KeyW)]);
    assert!(system.is_key_down(KeyCode::KeyW));

    for _ in 0..10 {
        system.clear();
        system.process_events(&vec![]);
        system.finalize_frame();
        assert!(system.is_key_down(KeyCode::KeyW), "Key should remain down");
    }
}

#[test]
fn multiple_keys_tracked_independently() {
    let mut system = StateTracker::new();

    system.process_events(&vec![
        key_down(KeyCode::KeyW),
        key_down(KeyCode::KeyA),
        key_down(KeyCode::KeyS),
    ]);

    assert!(system.is_key_down(KeyCode::KeyW));
    assert!(system.is_key_down(KeyCode::KeyA));
    assert!(system.is_key_down(KeyCode::KeyS));
    assert!(!system.is_key_down(KeyCode::KeyD));

    system.clear();
    system.process_events(&vec![key_up(KeyCode::KeyA)]);

    assert!(system.is_key_down(KeyCode::KeyW));
    assert!(!system.is_key_down(KeyCode::KeyA));
    assert!(system.is_key_down(KeyCode::KeyS));
}

#[test]
fn fast_tap_both_transitions_captured() {
    let mut system = StateTracker::new();

    system.process_events(&vec![key_down(KeyCode::KeyA), key_up(KeyCode::KeyA)]);

    assert!(system.is_key_pressed(KeyCode::KeyA), "Should register press");
    assert!(system.is_key_released(KeyCode::KeyA), "Should register release");
    assert!(!system.is_key_down(KeyCode::KeyA), "Should end up not down");
}

#[test]
fn duplicate_key_down_ignored() {
    let mut system = StateTracker::new();

    system.process_events(&vec![key_down(KeyCode::KeyA)]);
    assert!(system.is_key_pressed(KeyCode::KeyA));

    system.clear();

    system.process_events(&vec![key_down(KeyCode::KeyA)]);
    assert!(!system.is_key_pressed(KeyCode::KeyA), "Duplicate press should not trigger");
    assert!(system.is_key_down(KeyCode::KeyA), "Should still be down");
}

#[test]
fn key_up_without_down_ignored() {
    let mut system = StateTracker::new();

    system.process_events(&vec![key_up(KeyCode::KeyZ)]);

    assert!(!system.is_key_released(KeyCode::KeyZ), "Should not register spurious release");
}

#[test]
fn mouse_button_pressed_and_down() {
    let mut system = StateTracker::new();

    system.process_events(&vec![mouse_down(MouseButton::Left)]);

    assert!(system.is_button_pressed(MouseButton::Left));
    assert!(system.is_button_down(MouseButton::Left));

    system.clear();
    system.process_events(&vec![]);

    assert!(!system.is_button_pressed(MouseButton::Left));
    assert!(system.is_button_down(MouseButton::Left));
}

#[test]
fn mouse_button_released() {
    let mut system = StateTracker::new();

    system.process_events(&vec![mouse_down(MouseButton::Right)]);

    system.clear();
    system.process_events(&vec![mouse_up(MouseButton::Right)]);

    assert!(system.is_button_released(MouseButton::Right));
    assert!(!system.is_button_down(MouseButton::Right));
}

#[test]
fn mouse_position_updated() {
    let mut system = StateTracker::new();

    system.process_events(&vec![mouse_move(100, 200)]);

    assert_eq!(system.mouse_position(), (100, 200));
}

#[test]
fn mouse_delta_calculated() {
    let mut system = StateTracker::new();

    system.clear();
    system.process_events(&vec![mouse_move(100, 100)]);
    system.finalize_frame();
    assert_eq!(system.mouse_delta(), (100, 100));

    system.clear();
    system.process_events(&vec![mouse_move(150, 120)]);
    system.finalize_frame();
    assert_eq!(system.mouse_delta(), (50, 20));

    system.clear();
    system.process_events(&vec![]);
    system.finalize_frame();
    assert_eq!(system.mouse_delta(), (0, 0));
}

#[test]
fn modifiers_updated_on_key_events() {
    let mut system = StateTracker::new();

    system.process_events(&vec![InputEvent::KeyDown {
        key: KeyCode::KeyA,
        modifiers: Modifiers::ctrl(),
    }]);

    assert!(system.ctrl_held());
    assert!(!system.shift_held());
    assert_eq!(system.modifiers(), Modifiers::ctrl());
}

#[test]
fn keys_pressed_iterator() {
    let mut system = StateTracker::new();

    system.process_events(&vec![key_down(KeyCode::KeyA), key_down(KeyCode::KeyB)]);

    let pressed: Vec<_> = system.keys_pressed().iter().copied().collect();
    assert_eq!(pressed.len(), 2);
    assert!(pressed.contains(&KeyCode::KeyA));
    assert!(pressed.contains(&KeyCode::KeyB));
}

#[test]
fn buttons_pressed_iterator() {
    let mut system = StateTracker::new();

    system.process_events(&vec![mouse_down(MouseButton::Left), mouse_down(MouseButton::Right)]);

    let pressed: Vec<_> = system.buttons_pressed().iter().copied().collect();
    assert_eq!(pressed.len(), 2);
}

#[test]
fn clear_resets_frame_deltas() {
    let mut system = StateTracker::new();

    system.process_events(&vec![key_down(KeyCode::KeyA)]);
    assert!(system.is_key_pressed(KeyCode::KeyA));

    system.clear();

    assert!(!system.is_key_pressed(KeyCode::KeyA));
    assert!(system.is_key_down(KeyCode::KeyA));
}

#[test]
fn clear_updates_last_mouse_position() {
    let mut system = StateTracker::new();

    system.process_events(&vec![mouse_move(100, 200)]);
    system.finalize_frame();

    let _old_pos = system.mouse_position();
    system.clear();

    system.finalize_frame();
    assert_eq!(system.mouse_delta(), (0, 0));
}

#[test]
fn finalize_frame_calculates_delta() {
    let mut system = StateTracker::new();

    system.process_events(&vec![mouse_move(80, 90)]);
    system.clear();
    system.process_events(&vec![mouse_move(100, 100)]);

    system.finalize_frame();

    assert_eq!(system.mouse_delta(), (20, 10));
}

#[test]
fn unidentified_events_ignored() {
    let mut system = StateTracker::new();

    system.process_events(&vec![InputEvent::Unidentified]);

    assert_eq!(system.mouse_position(), (0, 0));
}

#[test]
fn empty_event_batch_handled() {
    let mut system = StateTracker::new();

    system.clear();
    system.process_events(&vec![]);
    system.finalize_frame();

    assert_eq!(system.mouse_delta(), (0, 0));
}

#[test]
fn keys_down_lists_held_keys() {
    let mut system = StateTracker::new();

    system.process_events(&vec![key_down(KeyCode::KeyQ), key_down(KeyCode::KeyE)]);
    system.clear();
    system.process_events(&vec![key_up(KeyCode::KeyQ)]);

    let down: Vec<_> = system.keys_down().iter().copied().collect();
    assert_eq!(down.len(), 1);
    assert!(down.contains(&KeyCode::KeyE));

    let released: Vec<_> = system.keys_released().iter().copied().collect();
    assert_eq!(released, vec![KeyCode::KeyQ]);
}

#[test]
fn buttons_down_and_released_lists() {
    let mut system = StateTracker::new();

    system.process_events(&vec![mouse_down(MouseButton::Left), mouse_down(MouseButton::Middle)]);
    system.clear();
    system.process_events(&vec![mouse_up(MouseButton::Middle)]);

    let down: Vec<_> = system.buttons_down().iter().copied().collect();
    assert_eq!(down, vec![MouseButton::Left]);

    let released: Vec<_> = system.buttons_released().iter().copied().collect();
    assert_eq!(released, vec![MouseButton::Middle]);
}

#[test]
fn alt_held_follows_sticky_modifiers() {
    let mut system = StateTracker::new();

    system.process_events(&vec![InputEvent::KeyDown {
        key: KeyCode::KeyA,
        modifiers: Modifiers::alt(),
    }]);
    assert!(system.alt_held());

    system.process_events(&vec![InputEvent::KeyUp {
        key: KeyCode::KeyA,
        modifiers: Modifiers::none(),
    }]);
    assert!(!system.alt_held());
}
