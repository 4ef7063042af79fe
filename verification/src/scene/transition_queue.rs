//! Queue for scene transitions.
//!
//! Scenes queue transitions here during updates; the scene manager drains
//! the queue at the tick boundary and applies the transitions strictly in
//! arrival order, never mid-update.

use crate::scene::scene_manager::{SceneKey, SceneTransition};
use vstd::prelude::*;

verus! {

/// A first-in, first-out queue of scene transitions.
pub struct TransitionQueue<K: SceneKey> {
    queue: Vec<SceneTransition<K>>,
}

impl<K: SceneKey> View for TransitionQueue<K> {
    type V = Seq<SceneTransition<K>>;

    closed spec fn view(&self) -> Seq<SceneTransition<K>> {
        self.queue@
    }
}

impl<K: SceneKey> TransitionQueue<K> {
    /// Creates a new empty transition queue.
    pub fn new() -> (q: Self)
        ensures
            q@ == Seq::<SceneTransition<K>>::empty(),
    {
        TransitionQueue { queue: Vec::new() }
    }

    /// Queues a transition to be processed at the next tick boundary.
    pub fn push(&mut self, transition: SceneTransition<K>)
        ensures
            final(self)@ == old(self)@.push(transition),
    {
        self.queue.push(transition);
    }

    /// Returns the queued transitions in arrival order, without removing
    /// them.
    pub fn iter(&self) -> (r: &Vec<SceneTransition<K>>)
        ensures
            r@ == self@,
    {
        &self.queue
    }

    /// Returns true if the queue is empty.
    pub fn is_empty(&self) -> (r: bool)
        ensures
            r == (self@.len() == 0),
    {
        self.queue.is_empty()
    }

    /// Returns the number of queued transitions.
    pub fn len(&self) -> (n: usize)
        ensures
            n == self@.len(),
    {
        self.queue.len()
    }

    /// Discards all queued transitions.
    pub fn clear(&mut self)
        ensures
            final(self)@ == Seq::<SceneTransition<K>>::empty(),
    {
        self.queue.clear();
    }

    /// Removes and returns all queued transitions in arrival order.
    pub fn drain(&mut self) -> (r: Vec<SceneTransition<K>>)
        ensures
            r@ == old(self)@,
            final(self)@ == Seq::<SceneTransition<K>>::empty(),
    {
        self.take()
    }

    /// Takes all transitions from the queue, leaving it empty.
    pub fn take(&mut self) -> (r: Vec<SceneTransition<K>>)
        ensures
            r@ == old(self)@,
            final(self)@ == Seq::<SceneTransition<K>>::empty(),
    {
        let mut out: Vec<SceneTransition<K>> = Vec::new();
        core::mem::swap(&mut out, &mut self.queue);
        out
    }
}

impl<K: SceneKey> Default for TransitionQueue<K> {
    /// Same as [`TransitionQueue::new`].
    fn default() -> (q: Self)
        ensures
            q@ == Seq::<SceneTransition<K>>::empty(),
    {
        TransitionQueue::new()
    }
}

} // verus!
