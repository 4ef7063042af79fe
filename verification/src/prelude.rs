//! Convenience re-exports of the commonly used types and traits.

pub use crate::globals::{GlobalContext, GlobalSystems, ACTION_MESSAGES};
pub use crate::input::action::{Action, InputContext};
pub use crate::input::event::{InputEvent, KeyCode, Modifiers, MouseButton};
pub use crate::input::state_tracker::StateTracker;
pub use crate::input::InputSystem;
pub use crate::message_bus::MessageBus;
pub use crate::orchestrator::run_tick;
pub use crate::platform_bridge::{EventCollector, PlatformEvent, TickControl};
pub use crate::scene::{Scene, SceneKey, SceneManager, SceneTransition, TransitionQueue};
