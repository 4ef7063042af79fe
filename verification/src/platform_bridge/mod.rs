//! Bridge between the platform layer and the core systems.
//!
//! This module defines the contract between platform implementations and
//! the core logic: the event types carried over the channel, and the
//! core-side event collection.

pub mod event_collector;
pub mod interface;

pub use event_collector::{EventCollector, TickControl};
pub use interface::PlatformEvent;
