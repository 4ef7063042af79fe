//! A single typed message queue: one growable buffer of messages of one
//! kind, cleared at tick boundaries while retaining its storage.

use crate::vecset::vec_capacity;
use vstd::prelude::*;

verus! {

/// One message queue: the buffer for a single message kind.
///
/// `clear_queue` empties the buffer but keeps its allocation, so recurring
/// message kinds do not reallocate every tick.
pub struct MessageQueue<M> {
    kind: u64,
    items: Vec<M>,
}

impl<M> MessageQueue<M> {
    /// The message kind this queue stores.
    pub closed spec fn spec_kind(self) -> u64 {
        self.kind
    }

    /// The queued messages, oldest first.
    pub closed spec fn contents(self) -> Seq<M> {
        self.items@
    }

    /// Creates an empty queue for the given message kind.
    pub fn new(kind: u64) -> (q: Self)
        ensures
            q.spec_kind() == kind,
            q.contents() == Seq::<M>::empty(),
    {
        MessageQueue { kind, items: Vec::new() }
    }

    /// Creates an empty queue with storage for at least `capacity` messages.
    pub fn with_capacity(kind: u64, capacity: usize) -> (q: Self)
        ensures
            q.spec_kind() == kind,
            q.contents() == Seq::<M>::empty(),
    {
        MessageQueue { kind, items: Vec::with_capacity(capacity) }
    }

    /// Returns the message kind this queue stores.
    pub fn kind(&self) -> (k: u64)
        ensures
            k == self.spec_kind(),
    {
        self.kind
    }

    /// Appends a message at the back of the queue.
    pub fn push(&mut self, msg: M)
        ensures
            final(self).spec_kind() == old(self).spec_kind(),
            final(self).contents() == old(self).contents().push(msg),
    {
        self.items.push(msg);
    }

    /// Clears all messages while preserving the allocated storage.
    pub fn clear_queue(&mut self)
        ensures
            final(self).spec_kind() == old(self).spec_kind(),
            final(self).contents() == Seq::<M>::empty(),
    {
        self.items.clear();
    }

    /// Returns the number of messages currently queued.
    pub fn len(&self) -> (n: usize)
        ensures
            n == self.contents().len(),
    {
        self.items.len()
    }

    /// Returns true if the queue is empty.
    pub fn is_empty(&self) -> (r: bool)
        ensures
            r == (self.contents().len() == 0),
    {
        self.items.is_empty()
    }

    /// Returns the queued messages, oldest first.
    pub fn read(&self) -> (r: &Vec<M>)
        ensures
            r@ == self.contents(),
    {
        &self.items
    }

    /// Returns how many messages the queue can hold without reallocating.
    pub fn capacity(&self) -> (c: usize)
        ensures
            c >= self.contents().len(),
    {
        vec_capacity(&self.items)
    }
}

} // verus!
