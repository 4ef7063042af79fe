use aetheric_engine::globals::{GlobalContext, GlobalSystems, ACTION_MESSAGES};
use aetheric_engine::input::action::{Action, InputContext};
use aetheric_engine::input::event::{InputEvent, KeyCode, Modifiers};
use aetheric_engine::orchestrator::run_tick;
use aetheric_engine::platform_bridge::{EventCollector, PlatformEvent, TickControl};
use aetheric_engine::scene::scene_manager::SceneKey;
use aetheric_engine::scene::Scene;
use crossbeam_channel::unbounded;

#[derive(Clone, Copy, Eq, PartialEq, Hash, Debug)]
enum GameScene {
    Main,
}

impl SceneKey for GameScene {
    fn same_key(&self, other: &Self) -> bool {
        self == other
    }
}

#[derive(Debug, Clone, Copy, PartialEq, Eq, Hash)]
enum GameAction {
    Jump,
}

impl Action for GameAction {
    fn same_action(&self, other: &Self) -> bool {
        self == other
    }
}

/// Counts how many actions it saw on the bus while updating.
struct MainScene {
    actions_seen: usize,
    updates: usize,
}

impl Scene<GameScene, GameAction> for MainScene {
    fn update(&mut self, context: &mut GlobalContext<GameScene, GameAction>) {
        self.updates += 1;
        self.actions_seen += context.message_bus.read(ACTION_MESSAGES).len();
    }

    fn transparent_spec(&self) -> bool {
        false
    }

    fn is_transparent(&self) -> bool {
        false
    }
}

#[test]
fn tick_feeds_input_to_scenes_and_exits_on_shutdown() {
    let (tx, rx) = unbounded::<PlatformEvent>();
    let mut collector = EventCollector::new(rx);
    let mut context: GlobalContext<GameScene, GameAction> = GlobalContext::new();
    let mut systems: GlobalSystems<GameScene, GameAction, MainScene> = GlobalSystems::new();

    systems.input.bind_key(KeyCode::Space, GameAction::Jump, InputContext::Primary);
    systems.scene_manager.register_default(GameScene::Main, MainScene {
        actions_seen: 0,
        updates: 0,
    });
    systems.scene_manager.start(&mut context);

    tx.send(PlatformEvent::Inputs {
        discrete: vec![InputEvent::KeyDown { key: KeyCode::Space, modifiers: Modifiers::none() }],
        continuous: vec![],
    })
    .unwrap();

    let r = run_tick(&mut collector, &mut context, &mut systems);
    assert_eq!(r, TickControl::Continue);

    // The tick's resolved action is on the bus, visible to every reader
    // until the action slot is cleared next tick.
    assert_eq!(context.message_bus.read(ACTION_MESSAGES).as_slice(), &[GameAction::Jump]);
    assert!(context.input_state.is_key_pressed(KeyCode::Space));

    // A tick with no events clears the action slot.
    let r = run_tick(&mut collector, &mut context, &mut systems);
    assert_eq!(r, TickControl::Continue);
    assert_eq!(context.message_bus.count(ACTION_MESSAGES), 0);
    assert!(!context.input_state.is_key_pressed(KeyCode::Space));
    assert!(context.input_state.is_key_down(KeyCode::Space));

    tx.send(PlatformEvent::WindowClosed).unwrap();
    let r = run_tick(&mut collector, &mut context, &mut systems);
    assert_eq!(r, TickControl::Exit);

    drop(tx);
    let r = run_tick(&mut collector, &mut context, &mut systems);
    assert_eq!(r, TickControl::Exit);
}
