use aetheric_engine::input::event::{InputEvent, KeyCode, Modifiers};
use aetheric_engine::platform_bridge::{EventCollector, PlatformEvent, TickControl};
use crossbeam_channel::unbounded;

#[test]
fn collect_handles_empty_queue() {
    let (_tx, rx) = unbounded::<PlatformEvent>();
    let mut collector = EventCollector::new(rx);

    let result = collector.collect_frame();

    assert_eq!(result, TickControl::Continue);
    assert!(collector.batches().is_empty());
    assert!(!collector.had_events());
}

#[test]
fn collect_aggregates_multiple_events() {
    let (tx, rx) = unbounded();
    let mut collector = EventCollector::new(rx);

    tx.send(PlatformEvent::Inputs {
        discrete: vec![InputEvent::KeyDown { key: KeyCode::KeyA, modifiers: Modifiers::none() }],
        continuous: vec![],
    })
    .unwrap();

    tx.send(PlatformEvent::Inputs {
        discrete: vec![],
        continuous: vec![InputEvent::MouseMoved { x: 10, y: 20 }],
    })
    .unwrap();

    let result = collector.collect_frame();

    assert_eq!(result, TickControl::Continue);
    assert_eq!(collector.batches().len(), 2);
    assert!(collector.had_events());
}

#[test]
fn collect_returns_exit_on_window_closed() {
    let (tx, rx) = unbounded();
    let mut collector = EventCollector::new(rx);

    tx.send(PlatformEvent::WindowClosed).unwrap();

    let result = collector.collect_frame();

    assert_eq!(result, TickControl::Exit);
}

#[test]
fn collect_clears_previous_batches() {
    let (tx, rx) = unbounded();
    let mut collector = EventCollector::new(rx);

    tx.send(PlatformEvent::Inputs {
        discrete: vec![InputEvent::KeyDown { key: KeyCode::Space, modifiers: Modifiers::none() }],
        continuous: vec![],
    })
    .unwrap();

    collector.collect_frame();
    assert_eq!(collector.batches().len(), 1);

    tx.send(PlatformEvent::Inputs { discrete: vec![], continuous: vec![] }).unwrap();

    collector.collect_frame();
    assert!(collector.batches().is_empty());
}

#[test]
fn collect_returns_exit_on_disconnect() {
    let (tx, rx) = unbounded::<PlatformEvent>();
    let mut collector = EventCollector::new(rx);

    drop(tx);

    let result = collector.collect_frame();

    assert_eq!(result, TickControl::Exit);
}

#[test]
fn take_batches_transfers_ownership_once() {
    let (tx, rx) = unbounded();
    let mut collector = EventCollector::new(rx);

    tx.send(PlatformEvent::Inputs {
        discrete: vec![InputEvent::KeyDown { key: KeyCode::KeyW, modifiers: Modifiers::none() }],
        continuous: vec![],
    })
    .unwrap();

    collector.collect_frame();
    let batches = collector.take_batches();
    assert_eq!(batches.len(), 1);
    assert_eq!(batches[0].len(), 1);
    assert!(collector.batches().is_empty());
}
