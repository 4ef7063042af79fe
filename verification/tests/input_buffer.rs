use aetheric_engine::input::event::{InputEvent, KeyCode, Modifiers, MouseButton};
use aetheric_engine::platform::InputBuffer;

fn key_down(key: KeyCode) -> InputEvent {
    InputEvent::KeyDown { key, modifiers: Modifiers::none() }
}

fn mouse_move(x: i32, y: i32) -> InputEvent {
    InputEvent::MouseMoved { x, y }
}

fn mouse_down(btn: MouseButton) -> InputEvent {
    InputEvent::MouseButtonDown { button: btn, modifiers: Modifiers::none() }
}

#[test]
fn new_buffer_is_empty() {
    let buffer = InputBuffer::new();
    assert!(buffer.is_empty());
    assert_eq!(buffer.discrete_len(), 0);
    assert_eq!(buffer.continuous_len(), 0);
}

#[test]
fn new_buffer_has_preallocated_capacity() {
    let buffer = InputBuffer::new();
    assert!(buffer.discrete_capacity() >= 128);
    assert!(buffer.continuous_capacity() >= 1);
}

#[test]
fn discrete_deduplicates_consecutive() {
    let mut buffer = InputBuffer::new();
    buffer.push_discrete(key_down(KeyCode::KeyA));
    buffer.push_discrete(key_down(KeyCode::KeyA));
    buffer.push_discrete(key_down(KeyCode::KeyB));

    assert_eq!(buffer.discrete_len(), 2);
}

#[test]
fn discrete_allows_nonconsecutive_duplicates() {
    let mut buffer = InputBuffer::new();
    buffer.push_discrete(key_down(KeyCode::KeyA));
    buffer.push_discrete(key_down(KeyCode::KeyB));
    buffer.push_discrete(key_down(KeyCode::KeyA));

    assert_eq!(buffer.discrete_len(), 3);
}

#[test]
fn discrete_preserves_insertion_order() {
    let mut buffer = InputBuffer::new();
    buffer.push_discrete(key_down(KeyCode::KeyA));
    buffer.push_discrete(key_down(KeyCode::KeyB));
    buffer.push_discrete(key_down(KeyCode::KeyC));

    let (discrete, _) = buffer.drain().unwrap();

    match (&discrete[0], &discrete[1], &discrete[2]) {
        (
            InputEvent::KeyDown { key: KeyCode::KeyA, .. },
            InputEvent::KeyDown { key: KeyCode::KeyB, .. },
            InputEvent::KeyDown { key: KeyCode::KeyC, .. },
        ) => {}
        _ => panic!("Order not preserved"),
    }
}

#[test]
fn discrete_different_types_no_dedup() {
    let mut buffer = InputBuffer::new();
    buffer.push_discrete(key_down(KeyCode::KeyA));
    buffer.push_discrete(mouse_down(MouseButton::Left));
    buffer.push_discrete(key_down(KeyCode::KeyA));

    assert_eq!(buffer.discrete_len(), 3);
}

#[test]
fn continuous_keeps_only_latest() {
    let mut buffer = InputBuffer::new();
    buffer.push_continuous(mouse_move(10, 10));
    buffer.push_continuous(mouse_move(20, 30));

    assert_eq!(buffer.continuous_len(), 1);

    let (_, continuous) = buffer.drain().unwrap();
    match continuous[0] {
        InputEvent::MouseMoved { x, y } => {
            assert_eq!((x, y), (20, 30));
        }
        _ => panic!("Expected MouseMoved"),
    }
}

#[test]
fn continuous_size_remains_one() {
    let mut buffer = InputBuffer::new();

    for i in 0..100 {
        buffer.push_continuous(mouse_move(i, i));
    }

    assert_eq!(buffer.continuous_len(), 1, "Size should always be 1");
}

#[test]
fn mixed_events_stored_independently() {
    let mut buffer = InputBuffer::new();

    buffer.push_discrete(key_down(KeyCode::KeyA));
    buffer.push_continuous(mouse_move(10, 20));
    buffer.push_discrete(key_down(KeyCode::KeyB));
    buffer.push_continuous(mouse_move(30, 40));

    assert_eq!(buffer.discrete_len(), 2);
    assert_eq!(buffer.continuous_len(), 1);
}

#[test]
fn drain_returns_both_categories() {
    let mut buffer = InputBuffer::new();
    buffer.push_discrete(key_down(KeyCode::KeyA));
    buffer.push_continuous(mouse_move(5, 5));

    let (discrete, continuous) = buffer.drain().unwrap();

    assert_eq!(discrete.len(), 1);
    assert_eq!(continuous.len(), 1);
    assert!(buffer.is_empty());
}

#[test]
fn drain_empty_returns_none() {
    let mut buffer = InputBuffer::new();
    assert!(buffer.drain().is_none());
}

#[test]
fn drain_only_discrete_returns_some() {
    let mut buffer = InputBuffer::new();
    buffer.push_discrete(key_down(KeyCode::KeyA));

    let result = buffer.drain();
    assert!(result.is_some());

    let (discrete, continuous) = result.unwrap();
    assert_eq!(discrete.len(), 1);
    assert_eq!(continuous.len(), 0);
}

#[test]
fn drain_only_continuous_returns_some() {
    let mut buffer = InputBuffer::new();
    buffer.push_continuous(mouse_move(10, 20));

    let result = buffer.drain();
    assert!(result.is_some());

    let (discrete, continuous) = result.unwrap();
    assert_eq!(discrete.len(), 0);
    assert_eq!(continuous.len(), 1);
}

#[test]
fn multiple_drains() {
    let mut buffer = InputBuffer::new();

    buffer.push_discrete(key_down(KeyCode::KeyA));
    let (d1, _) = buffer.drain().unwrap();
    assert_eq!(d1.len(), 1);

    buffer.push_discrete(key_down(KeyCode::KeyB));
    let (d2, _) = buffer.drain().unwrap();
    assert_eq!(d2.len(), 1);

    assert!(buffer.drain().is_none());
}

#[test]
fn drain_preserves_discrete_capacity() {
    let mut buffer = InputBuffer::new();

    for i in 0..200 {
        // Alternate keys so consecutive deduplication keeps every event.
        if i % 2 == 0 {
            buffer.push_discrete(key_down(KeyCode::KeyA));
        } else {
            buffer.push_discrete(key_down(KeyCode::KeyB));
        }
    }

    let cap_before = buffer.discrete_capacity();
    buffer.drain();

    assert_eq!(buffer.discrete_capacity(), cap_before);
}

#[test]
fn drain_preserves_continuous_capacity() {
    let mut buffer = InputBuffer::new();

    buffer.push_continuous(mouse_move(1, 1));

    let cap_before = buffer.continuous_capacity();

    buffer.drain();

    assert_eq!(buffer.continuous_capacity(), cap_before, "Capacity should be preserved");
}

#[test]
fn is_empty_on_new_buffer() {
    let buffer = InputBuffer::new();
    assert!(buffer.is_empty());
}

#[test]
fn is_empty_false_after_discrete() {
    let mut buffer = InputBuffer::new();
    buffer.push_discrete(key_down(KeyCode::KeyA));
    assert!(!buffer.is_empty());
}

#[test]
fn is_empty_false_after_continuous() {
    let mut buffer = InputBuffer::new();
    buffer.push_continuous(mouse_move(10, 20));
    assert!(!buffer.is_empty());
}

#[test]
fn is_empty_true_after_drain() {
    let mut buffer = InputBuffer::new();
    buffer.push_discrete(key_down(KeyCode::KeyA));
    buffer.drain();
    assert!(buffer.is_empty());
}

#[test]
fn rapid_movement_coalesces_to_latest_sample() {
    let mut buffer = InputBuffer::new();

    // Two samples before the tick boundary: only the latest is delivered.
    buffer.push_continuous(mouse_move(10, 10));
    buffer.push_continuous(mouse_move(99, 88));

    let (_, continuous) = buffer.drain().unwrap();
    assert_eq!(continuous.len(), 1);
    match continuous[0] {
        InputEvent::MouseMoved { x, y } => assert_eq!((x, y), (99, 88)),
        _ => panic!("Expected MouseMoved"),
    }
}
