use aetheric_engine::input::action::{Action, InputContext};
use std::collections::HashSet;

#[derive(Debug, Clone, Copy, PartialEq, Eq, Hash)]
enum TestAction {
    Jump,
    Shoot,
}

impl Action for TestAction {
    fn same_action(&self, other: &Self) -> bool {
        self == other
    }
}

#[test]
fn action_trait_is_implementable() {
    let action = TestAction::Jump;
    let copied = action;
    assert_eq!(action, copied);
}

#[test]
fn action_is_copy_preserves_original() {
    let action = TestAction::Jump;
    let copied = action;
    assert_eq!(action, TestAction::Jump);
    assert_eq!(copied, TestAction::Jump);
}

#[test]
fn action_is_hashable() {
    let mut set = HashSet::new();
    set.insert(TestAction::Jump);
    set.insert(TestAction::Jump);
    set.insert(TestAction::Shoot);

    assert_eq!(set.len(), 2);
    assert!(set.contains(&TestAction::Jump));
}

#[test]
fn action_equality() {
    assert_eq!(TestAction::Jump, TestAction::Jump);
    assert_ne!(TestAction::Jump, TestAction::Shoot);
}

#[test]
fn action_debug_format() {
    let debug_str = format!("{:?}", TestAction::Jump);
    assert!(debug_str.contains("Jump"));
}

#[test]
fn action_is_send() {
    fn assert_send<T: Send>() {}
    assert_send::<TestAction>();
}

#[test]
fn action_is_static() {
    fn assert_static<T: 'static>() {}
    assert_static::<TestAction>();
}

#[test]
fn input_context_primary_default() {
    assert_eq!(InputContext::default(), InputContext::Primary);
}

#[test]
fn input_context_custom_creation() {
    let ctx1 = InputContext::custom(0);
    let ctx2 = InputContext::custom(1);

    assert_ne!(ctx1, ctx2);
    assert_eq!(ctx1, InputContext::Custom(0));
}

#[test]
fn input_context_primary_vs_custom_zero() {
    assert_ne!(InputContext::Primary, InputContext::custom(0));
}

#[test]
fn input_context_custom_max_id() {
    let ctx = InputContext::custom(u32::MAX);
    assert_eq!(ctx, InputContext::Custom(u32::MAX));
}

#[test]
fn input_context_many_unique() {
    let mut contexts = HashSet::new();
    for i in 0..100 {
        contexts.insert(InputContext::custom(i));
    }
    assert_eq!(contexts.len(), 100);
}

#[test]
fn input_context_is_copy() {
    let ctx = InputContext::Primary;
    let copied = ctx;
    assert_eq!(ctx, copied);
    assert_eq!(ctx, InputContext::Primary);
}

#[test]
fn input_context_clone_equals_copy() {
    let ctx = InputContext::custom(5);
    assert_eq!(ctx.clone(), ctx);
}

#[test]
fn input_context_is_hashable() {
    let mut set = HashSet::new();
    set.insert(InputContext::Primary);
    set.insert(InputContext::Primary);
    set.insert(InputContext::custom(0));

    assert_eq!(set.len(), 2);
}

#[test]
fn input_context_debug_format() {
    let primary = InputContext::Primary;
    let custom = InputContext::custom(42);

    assert!(format!("{:?}", primary).contains("Primary"));
    assert!(format!("{:?}", custom).contains("42"));
}

#[test]
fn input_context_custom_is_const() {
    const BUILD_MODE: InputContext = InputContext::Custom(0);
    const DIALOGUE: InputContext = InputContext::Custom(1);

    assert_ne!(BUILD_MODE, DIALOGUE);
}
