use aetheric_engine::scene::scene_manager::{SceneKey, SceneTransition};
use aetheric_engine::scene::transition_queue::TransitionQueue;

#[derive(Clone, Copy, Eq, PartialEq, Hash, Debug)]
enum TestScene {
    A,
    B,
}

impl SceneKey for TestScene {
    fn same_key(&self, other: &Self) -> bool {
        self == other
    }
}

#[test]
fn new_queue_is_empty() {
    let queue: TransitionQueue<TestScene> = TransitionQueue::new();
    assert!(queue.is_empty());
    assert_eq!(queue.len(), 0);
    assert!(queue.iter().is_empty());
}

#[test]
fn default_queue_is_empty() {
    let queue: TransitionQueue<TestScene> = TransitionQueue::default();
    assert!(queue.is_empty());
}

#[test]
fn push_preserves_arrival_order() {
    let mut queue: TransitionQueue<TestScene> = TransitionQueue::new();
    queue.push(SceneTransition::Push(TestScene::A));
    queue.push(SceneTransition::Remove(TestScene::B));
    queue.push(SceneTransition::Clear);

    assert_eq!(queue.len(), 3);
    assert!(!queue.is_empty());
    assert_eq!(
        queue.iter().as_slice(),
        &[
            SceneTransition::Push(TestScene::A),
            SceneTransition::Remove(TestScene::B),
            SceneTransition::Clear,
        ]
    );
}

#[test]
fn clear_discards_queued_transitions() {
    let mut queue: TransitionQueue<TestScene> = TransitionQueue::new();
    queue.push(SceneTransition::Push(TestScene::A));
    queue.clear();
    assert!(queue.is_empty());
}

#[test]
fn drain_returns_all_and_empties() {
    let mut queue: TransitionQueue<TestScene> = TransitionQueue::new();
    queue.push(SceneTransition::Push(TestScene::A));
    queue.push(SceneTransition::Push(TestScene::B));

    let drained = queue.drain();
    assert_eq!(
        drained,
        vec![SceneTransition::Push(TestScene::A), SceneTransition::Push(TestScene::B)]
    );
    assert!(queue.is_empty());
}

#[test]
fn take_returns_all_and_empties() {
    let mut queue: TransitionQueue<TestScene> = TransitionQueue::new();
    queue.push(SceneTransition::Replace(TestScene::A, TestScene::B));

    let taken = queue.take();
    assert_eq!(taken, vec![SceneTransition::Replace(TestScene::A, TestScene::B)]);
    assert!(queue.is_empty());
    assert_eq!(queue.len(), 0);
}
