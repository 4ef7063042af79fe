use aetheric_engine::input::event::{InputEvent, KeyCode, Modifiers, MouseButton};
use aetheric_engine::platform::InputProcessor;

fn make_modifiers(shift: bool, ctrl: bool, alt: bool) -> Modifiers {
    Modifiers { shift, ctrl, alt }
}

#[test]
fn starts_with_no_modifiers() {
    let processor = InputProcessor::new();
    assert_eq!(processor.current_modifiers(), Modifiers::none());
}

#[test]
fn update_modifiers_works() {
    let mut processor = InputProcessor::new();
    processor.update_modifiers(make_modifiers(true, true, false));
    assert_eq!(processor.current_modifiers(), Modifiers::shift_ctrl());
}

#[test]
fn create_key_down_event_with_modifiers() {
    let mut processor = InputProcessor::new();
    processor.update_modifiers(make_modifiers(true, false, false));

    let event = processor.process_key_event(KeyCode::KeyA, true);

    match event {
        Some(InputEvent::KeyDown { key, modifiers }) => {
            assert_eq!(key, KeyCode::KeyA);
            assert!(modifiers.shift);
            assert!(!modifiers.ctrl);
        }
        _ => panic!("Expected KeyDown"),
    }
}

#[test]
fn create_key_up_event_with_modifiers() {
    let mut processor = InputProcessor::new();
    processor.update_modifiers(make_modifiers(false, true, false));

    let event = processor.process_key_event(KeyCode::KeyB, false);

    match event {
        Some(InputEvent::KeyUp { key, modifiers }) => {
            assert_eq!(key, KeyCode::KeyB);
            assert!(modifiers.ctrl);
            assert!(!modifiers.shift);
        }
        _ => panic!("Expected KeyUp"),
    }
}

#[test]
fn keycode_conversion_filters_unidentified() {
    let processor = InputProcessor::new();
    assert!(processor.process_key_event(KeyCode::Unidentified, true).is_none());
}

#[test]
fn mouse_button_has_modifiers() {
    let mut processor = InputProcessor::new();
    processor.update_modifiers(make_modifiers(false, false, true));

    let event = processor.process_mouse_button(MouseButton::Left, true);

    match event {
        InputEvent::MouseButtonDown { button, modifiers } => {
            assert_eq!(button, MouseButton::Left);
            assert!(modifiers.alt);
        }
        _ => panic!("Expected MouseButtonDown"),
    }
}

#[test]
fn mouse_move_correct() {
    let processor = InputProcessor::new();

    let event = processor.process_mouse_move(123, 456);

    match event {
        InputEvent::MouseMoved { x, y } => {
            assert_eq!(x, 123);
            assert_eq!(y, 456);
        }
        _ => panic!("Expected MouseMoved"),
    }
}

#[test]
fn modifiers_persist_across_events() {
    let mut processor = InputProcessor::new();
    processor.update_modifiers(make_modifiers(true, false, false));

    let first = processor.process_key_event(KeyCode::KeyA, true);
    let second = processor.process_key_event(KeyCode::KeyB, true);

    match (first, second) {
        (
            Some(InputEvent::KeyDown { modifiers: m1, .. }),
            Some(InputEvent::KeyDown { modifiers: m2, .. }),
        ) => {
            assert!(m1.shift);
            assert!(m2.shift);
        }
        _ => panic!("Expected KeyDown"),
    }
}

#[test]
fn mouse_button_release_keeps_modifiers() {
    let mut processor = InputProcessor::new();
    processor.update_modifiers(make_modifiers(false, true, true));

    let event = processor.process_mouse_button(MouseButton::Right, false);

    match event {
        InputEvent::MouseButtonUp { button, modifiers } => {
            assert_eq!(button, MouseButton::Right);
            assert_eq!(modifiers, Modifiers::ctrl_alt());
        }
        _ => panic!("Expected MouseButtonUp"),
    }
}
