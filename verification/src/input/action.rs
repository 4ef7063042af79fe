//! Application-defined actions and input contexts.
//!
//! Actions are opaque identifiers routed by the core and interpreted by the
//! application. Contexts select which subset of bindings is active, so the
//! same key can trigger different actions in different application states.

use vstd::prelude::*;

verus! {

/// Trait for application-defined action values.
///
/// Actions represent high-level commands mapped from raw inputs; the core
/// routes them without interpreting them. Implementors supply an equality
/// test so that the per-tick set of resolved actions can be deduplicated.
pub trait Action: Sized + Copy + Send + 'static {
    /// Decides equality of two actions; must agree with logical equality.
    fn same_action(&self, other: &Self) -> (r: bool)
        ensures
            r == (self == other),
    ;
}

/// Identifies which set of input bindings is currently active.
///
/// `Primary` is the default context; `Custom` values let the application
/// define as many further contexts as it needs. `Primary` is distinct from
/// every custom context, including `Custom(0)`.
#[derive(Debug, Clone, Copy, PartialEq, Eq, Hash, Structural)]
pub enum InputContext {
    /// Default context for primary use.
    Primary,
    /// Application-defined context (menus, dialogue, vehicles, ...).
    Custom(u32),
}

impl InputContext {
    /// Creates a custom context with the given identifier.
    pub fn custom(id: u32) -> (c: Self)
        ensures
            c == InputContext::Custom(id),
    {
        InputContext::Custom(id)
    }
}

impl Default for InputContext {
    /// Defaults to the primary context.
    fn default() -> (c: Self)
        ensures
            c == InputContext::Primary,
    {
        InputContext::Primary
    }
}

} // verus!
