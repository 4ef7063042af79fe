//! Deterministic simulation core for an interactive real-time application.
//!
//! A fixed-tick logic loop ingests asynchronously arriving platform input,
//! maintains per-tick input state, drives a stack of update-capable scenes,
//! and relays typed messages between decoupled subsystems within a tick.

pub mod globals;
pub mod input;
pub mod message_bus;
pub mod orchestrator;
pub mod platform;
pub mod platform_bridge;
pub mod prelude;
pub mod scene;

pub(crate) mod vecset;

pub use globals::{GlobalContext, GlobalSystems};
pub use input::InputSystem;
