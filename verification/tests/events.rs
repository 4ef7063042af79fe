use aetheric_engine::input::event::{InputEvent, KeyCode, Modifiers, MouseButton};

fn key_down(key: KeyCode) -> InputEvent {
    InputEvent::KeyDown { key, modifiers: Modifiers::none() }
}

fn key_up(key: KeyCode) -> InputEvent {
    InputEvent::KeyUp { key, modifiers: Modifiers::none() }
}

fn mouse_down(btn: MouseButton) -> InputEvent {
    InputEvent::MouseButtonDown { button: btn, modifiers: Modifiers::none() }
}

#[test]
fn equality_same_type_same_data() {
    let a = key_down(KeyCode::KeyA);
    let b = key_down(KeyCode::KeyA);
    assert_eq!(a, b);
}

#[test]
fn equality_mousemoved_ignores_coordinates() {
    let a = InputEvent::MouseMoved { x: 10, y: 10 };
    let b = InputEvent::MouseMoved { x: 200, y: 300 };
    assert_eq!(a, b);
}

#[test]
fn equality_different_discriminant() {
    let a = key_down(KeyCode::KeyA);
    let b = key_up(KeyCode::KeyA);
    assert_ne!(a, b);
}

#[test]
fn equality_same_key_different_modifiers() {
    let a = InputEvent::KeyDown { key: KeyCode::KeyA, modifiers: Modifiers::none() };
    let b = InputEvent::KeyDown { key: KeyCode::KeyA, modifiers: Modifiers::ctrl() };
    assert_ne!(a, b);
}

#[test]
fn equality_different_key_same_modifiers() {
    let a = key_down(KeyCode::KeyA);
    let b = key_down(KeyCode::KeyB);
    assert_ne!(a, b);
}

#[test]
fn equality_different_mouse_buttons() {
    let a = mouse_down(MouseButton::Left);
    let b = mouse_down(MouseButton::Right);
    assert_ne!(a, b);
}

#[test]
fn equality_mouse_button_different_modifiers() {
    let a = InputEvent::MouseButtonDown { button: MouseButton::Left, modifiers: Modifiers::none() };
    let b = InputEvent::MouseButtonDown { button: MouseButton::Left, modifiers: Modifiers::ctrl() };
    assert_ne!(a, b);
}

#[test]
fn equality_unidentified() {
    let a = InputEvent::Unidentified;
    let b = InputEvent::Unidentified;
    assert_eq!(a, b);
}

#[test]
fn equality_different_event_families() {
    let key = InputEvent::KeyDown { key: KeyCode::KeyA, modifiers: Modifiers::none() };
    let mouse = InputEvent::MouseButtonDown {
        button: MouseButton::Left,
        modifiers: Modifiers::none(),
    };
    assert_ne!(key, mouse);
}

#[test]
fn with_modifiers_key_down() {
    let event = InputEvent::KeyDown { key: KeyCode::KeyA, modifiers: Modifiers::none() };

    let updated = event.with_modifiers(Modifiers::ctrl());

    match updated {
        InputEvent::KeyDown { key, modifiers } => {
            assert_eq!(key, KeyCode::KeyA);
            assert_eq!(modifiers, Modifiers::ctrl());
        }
        _ => panic!("Wrong event type"),
    }
}

#[test]
fn with_modifiers_key_up() {
    let event = key_up(KeyCode::KeyB);
    let updated = event.with_modifiers(Modifiers::shift());

    match updated {
        InputEvent::KeyUp { key, modifiers } => {
            assert_eq!(key, KeyCode::KeyB);
            assert_eq!(modifiers, Modifiers::shift());
        }
        _ => panic!("Wrong event type"),
    }
}

#[test]
fn with_modifiers_mouse_down() {
    let event = mouse_down(MouseButton::Left);
    let updated = event.with_modifiers(Modifiers::alt());

    match updated {
        InputEvent::MouseButtonDown { button, modifiers } => {
            assert_eq!(button, MouseButton::Left);
            assert_eq!(modifiers, Modifiers::alt());
        }
        _ => panic!("Wrong event type"),
    }
}

#[test]
fn with_modifiers_ignores_mouse_moved() {
    let event = InputEvent::MouseMoved { x: 10, y: 20 };
    let original = event.clone();
    let updated = event.with_modifiers(Modifiers::ctrl());

    assert_eq!(updated, original);
}

#[test]
fn with_modifiers_ignores_unidentified() {
    let event = InputEvent::Unidentified;
    let updated = event.clone().with_modifiers(Modifiers::all());

    assert_eq!(updated, InputEvent::Unidentified);
}

#[test]
fn keycode_is_copy() {
    let key = KeyCode::Space;
    let copied = key;
    assert_eq!(key, copied);
}

#[test]
fn mousebutton_is_copy() {
    let btn = MouseButton::Left;
    let copied = btn;
    assert_eq!(btn, copied);
}

#[test]
fn modifiers_is_copy() {
    let mods = Modifiers::ctrl();
    let copied = mods;
    assert_eq!(mods, copied);
}

#[test]
fn input_event_is_clone() {
    let event = key_down(KeyCode::Space);
    let cloned = event.clone();
    assert_eq!(event, cloned);
}

#[test]
fn modifiers_none() {
    let mods = Modifiers::none();
    assert!(!mods.shift && !mods.ctrl && !mods.alt);
}

#[test]
fn modifiers_shift() {
    let mods = Modifiers::shift();
    assert!(mods.shift && !mods.ctrl && !mods.alt);
}

#[test]
fn modifiers_ctrl() {
    let mods = Modifiers::ctrl();
    assert!(!mods.shift && mods.ctrl && !mods.alt);
}

#[test]
fn modifiers_alt() {
    let mods = Modifiers::alt();
    assert!(!mods.shift && !mods.ctrl && mods.alt);
}

#[test]
fn modifiers_shift_ctrl() {
    let mods = Modifiers::shift_ctrl();
    assert!(mods.shift && mods.ctrl && !mods.alt);
}

#[test]
fn modifiers_shift_alt() {
    let mods = Modifiers::shift_alt();
    assert!(mods.shift && !mods.ctrl && mods.alt);
}

#[test]
fn modifiers_ctrl_alt() {
    let mods = Modifiers::ctrl_alt();
    assert!(!mods.shift && mods.ctrl && mods.alt);
}

#[test]
fn modifiers_all() {
    let mods = Modifiers::all();
    assert!(mods.shift && mods.ctrl && mods.alt);
}

#[test]
fn modifiers_default() {
    let mods = Modifiers::default();
    assert_eq!(mods, Modifiers::none());
}

#[test]
fn modifiers_inequality() {
    assert_ne!(Modifiers::none(), Modifiers::shift());
    assert_ne!(Modifiers::ctrl(), Modifiers::shift_ctrl());
    assert_ne!(Modifiers::all(), Modifiers::shift_alt());
}
