use aetheric_engine::input::action::{Action, InputContext};
use aetheric_engine::input::event::{InputEvent, KeyCode, Modifiers, MouseButton};
use aetheric_engine::input::state_tracker::StateTracker;
use aetheric_engine::input::InputSystem;

#[derive(Debug, Clone, Copy, PartialEq, Eq, Hash)]
enum GameAction {
    Jump,
    Shoot,
    Save,
}

impl Action for GameAction {
    fn same_action(&self, other: &Self) -> bool {
        self == other
    }
}

fn key_down(key: KeyCode) -> InputEvent {
    InputEvent::KeyDown { key, modifiers: Modifiers::none() }
}

fn key_up(key: KeyCode) -> InputEvent {
    InputEvent::KeyUp { key, modifiers: Modifiers::none() }
}

#[test]
fn space_resolves_to_jump_in_primary_context() {
    let mut system: InputSystem<GameAction> = InputSystem::new();
    let mut tracker = StateTracker::new();

    system.bind_key(KeyCode::Space, GameAction::Jump, InputContext::Primary);
    system.set_context(InputContext::Primary);

    let batches = vec![vec![key_down(KeyCode::Space)]];
    system.process_frame(&mut tracker, &batches);

    assert_eq!(system.actions().as_slice(), &[GameAction::Jump]);
    assert!(tracker.is_key_pressed(KeyCode::Space));
}

#[test]
fn context_switch_stops_resolution() {
    let mut system: InputSystem<GameAction> = InputSystem::new();
    let mut tracker = StateTracker::new();

    system.bind_key(KeyCode::Space, GameAction::Jump, InputContext::Primary);
    system.set_context(InputContext::custom(0));

    let batches = vec![vec![key_down(KeyCode::Space)]];
    system.process_frame(&mut tracker, &batches);

    // The binding lives in Primary; with Custom(0) active nothing resolves.
    assert!(system.actions().is_empty());
    // The raw input state still saw the key.
    assert!(tracker.is_key_pressed(KeyCode::Space));
}

#[test]
fn duplicate_key_down_resolves_once() {
    let mut system: InputSystem<GameAction> = InputSystem::new();
    let mut tracker = StateTracker::new();

    system.bind_key(KeyCode::Space, GameAction::Jump, InputContext::Primary);

    // Platform double-delivery within one tick: the second down is not a
    // press transition, so the action fires once.
    let batches = vec![vec![key_down(KeyCode::Space), key_down(KeyCode::Space)]];
    system.process_frame(&mut tracker, &batches);

    assert_eq!(system.actions().as_slice(), &[GameAction::Jump]);
}

#[test]
fn held_key_does_not_resolve_again_next_tick() {
    let mut system: InputSystem<GameAction> = InputSystem::new();
    let mut tracker = StateTracker::new();

    system.bind_key(KeyCode::Space, GameAction::Jump, InputContext::Primary);

    system.process_frame(&mut tracker, &vec![vec![key_down(KeyCode::Space)]]);
    assert_eq!(system.actions().as_slice(), &[GameAction::Jump]);

    // Next tick: key still held, no new down event; the action slot is
    // cleared and stays empty.
    system.process_frame(&mut tracker, &vec![vec![]]);
    assert!(system.actions().is_empty());
    assert!(tracker.is_key_down(KeyCode::Space));
}

#[test]
fn key_up_never_resolves() {
    let mut system: InputSystem<GameAction> = InputSystem::new();
    let mut tracker = StateTracker::new();

    system.bind_key(KeyCode::Space, GameAction::Jump, InputContext::Primary);

    system.process_frame(&mut tracker, &vec![vec![key_down(KeyCode::Space)]]);
    system.process_frame(&mut tracker, &vec![vec![key_up(KeyCode::Space)]]);

    assert!(system.actions().is_empty());
    assert!(tracker.is_key_released(KeyCode::Space));
}

#[test]
fn modifiers_must_match_exactly_for_resolution() {
    let mut system: InputSystem<GameAction> = InputSystem::new();
    let mut tracker = StateTracker::new();

    system.bind_key_with_mods(
        KeyCode::KeyS,
        Modifiers::ctrl(),
        GameAction::Save,
        InputContext::Primary,
    );

    // Ctrl+Shift+S does not match the Ctrl+S binding.
    let batches = vec![vec![InputEvent::KeyDown {
        key: KeyCode::KeyS,
        modifiers: Modifiers::shift_ctrl(),
    }]];
    system.process_frame(&mut tracker, &batches);
    assert!(system.actions().is_empty());

    let batches = vec![vec![InputEvent::KeyDown {
        key: KeyCode::KeyS,
        modifiers: Modifiers::ctrl(),
    }]];
    system.process_frame(&mut tracker, &batches);
    assert!(system.actions().is_empty(), "key is still held from the previous tick");

    let batches = vec![
        vec![InputEvent::KeyUp { key: KeyCode::KeyS, modifiers: Modifiers::none() }],
        vec![InputEvent::KeyDown { key: KeyCode::KeyS, modifiers: Modifiers::ctrl() }],
    ];
    system.process_frame(&mut tracker, &batches);
    assert_eq!(system.actions().as_slice(), &[GameAction::Save]);
}

#[test]
fn mouse_button_press_resolves() {
    let mut system: InputSystem<GameAction> = InputSystem::new();
    let mut tracker = StateTracker::new();

    system.bind_mouse(MouseButton::Left, GameAction::Shoot, InputContext::Primary);

    let batches = vec![vec![InputEvent::MouseButtonDown {
        button: MouseButton::Left,
        modifiers: Modifiers::none(),
    }]];
    system.process_frame(&mut tracker, &batches);

    assert_eq!(system.actions().as_slice(), &[GameAction::Shoot]);
    assert!(tracker.is_button_pressed(MouseButton::Left));
}

#[test]
fn distinct_actions_resolve_in_event_order() {
    let mut system: InputSystem<GameAction> = InputSystem::new();
    let mut tracker = StateTracker::new();

    system.bind_key(KeyCode::Space, GameAction::Jump, InputContext::Primary);
    system.bind_key(KeyCode::KeyF, GameAction::Shoot, InputContext::Primary);

    let batches = vec![vec![key_down(KeyCode::KeyF)], vec![key_down(KeyCode::Space)]];
    system.process_frame(&mut tracker, &batches);

    assert_eq!(system.actions().as_slice(), &[GameAction::Shoot, GameAction::Jump]);
}

#[test]
fn unbind_key_all_variants_via_system() {
    let mut system: InputSystem<GameAction> = InputSystem::new();
    let mut tracker = StateTracker::new();

    system.bind_key(KeyCode::Space, GameAction::Jump, InputContext::Primary);
    system.bind_key_with_mods(
        KeyCode::Space,
        Modifiers::ctrl(),
        GameAction::Save,
        InputContext::Primary,
    );
    system.unbind_key_all_variants(KeyCode::Space, InputContext::Primary);

    let batches = vec![vec![key_down(KeyCode::Space)]];
    system.process_frame(&mut tracker, &batches);

    assert!(system.actions().is_empty());
}

#[test]
fn current_context_round_trips() {
    let mut system: InputSystem<GameAction> = InputSystem::new();
    assert_eq!(system.current_context(), InputContext::Primary);
    system.set_context(InputContext::custom(3));
    assert_eq!(system.current_context(), InputContext::Custom(3));
}

#[test]
fn tick_with_no_mouse_movement_has_zero_delta() {
    let mut system: InputSystem<GameAction> = InputSystem::new();
    let mut tracker = StateTracker::new();

    system.process_frame(&mut tracker, &vec![vec![InputEvent::MouseMoved { x: 40, y: 7 }]]);
    assert_eq!(tracker.mouse_delta(), (40, 7));

    // A tick without any mouse movement reports a zero delta.
    system.process_frame(&mut tracker, &vec![vec![key_down(KeyCode::KeyQ)]]);
    assert_eq!(tracker.mouse_delta(), (0, 0));
    assert_eq!(tracker.mouse_position(), (40, 7));
}
