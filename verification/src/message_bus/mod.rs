//! Kind-partitioned, multi-consumer, single-thread message bus.
//!
//! Messages are partitioned by a numeric kind into independent queues.
//! `push` appends, `read` returns a stable non-consuming view (every reader
//! sees the same data), `clear` empties one kind's queue and `clear_all`
//! empties every queue; both retain allocated storage. A pushed message is
//! visible to every reader until its kind is explicitly cleared.

mod message_queue;

pub use message_queue::MessageQueue;

use vstd::prelude::*;

verus! {

/// Trait for values that can be sent through the [`MessageBus`].
pub trait Message: Send + 'static {

}

impl<T: Send + 'static> Message for T {

}

/// No two queues in the sequence store the same message kind.
pub open spec fn kinds_distinct<M>(qs: Seq<MessageQueue<M>>) -> bool {
    forall|i: int, j: int|
        0 <= i < j < qs.len() ==> #[trigger] qs[i].spec_kind() != #[trigger] qs[j].spec_kind()
}

/// Whether some queue in the sequence stores the given kind.
pub open spec fn has_kind<M>(qs: Seq<MessageQueue<M>>, kind: u64) -> bool {
    exists|i: int| 0 <= i < qs.len() && #[trigger] qs[i].spec_kind() == kind
}

/// The index of the queue storing the given kind, when one exists.
pub open spec fn kind_index<M>(qs: Seq<MessageQueue<M>>, kind: u64) -> int {
    choose|i: int| 0 <= i < qs.len() && #[trigger] qs[i].spec_kind() == kind
}

/// The messages stored for the given kind: the contents of its queue, or
/// the empty sequence when no queue for the kind exists.
pub open spec fn lookup<M>(qs: Seq<MessageQueue<M>>, kind: u64) -> Seq<M> {
    if has_kind(qs, kind) {
        qs[kind_index(qs, kind)].contents()
    } else {
        Seq::empty()
    }
}

/// Type-partitioned message queue for batched communication between
/// subsystems within a tick.
///
/// Strictly single-threaded; no internal synchronization.
pub struct MessageBus<M> {
    queues: Vec<MessageQueue<M>>,
    none: Vec<M>,
}

impl<M> MessageBus<M> {
    #[verifier::type_invariant]
    closed spec fn wf(self) -> bool {
        kinds_distinct(self.queues@) && self.none@.len() == 0
    }

    /// The messages currently queued under the given kind, oldest first.
    pub closed spec fn contents(self, kind: u64) -> Seq<M> {
        lookup(self.queues@, kind)
    }

    /// Creates a new, empty message bus.
    pub fn new() -> (b: Self)
        ensures
            forall|k: u64| b.contents(k) == Seq::<M>::empty(),
    {
        MessageBus { queues: Vec::new(), none: Vec::new() }
    }

    /// Pushes a message onto the queue for its kind, lazily creating the
    /// queue on first use. Queues for other kinds are untouched.
    pub fn push(&mut self, kind: u64, msg: M)
        ensures
            final(self).contents(kind) == old(self).contents(kind).push(msg),
            forall|k: u64| k != kind ==> final(self).contents(k) == old(self).contents(k),
    {
        proof {
            use_type_invariant(&*self);
        }
        let mut qs: Vec<MessageQueue<M>> = Vec::new();
        core::mem::swap(&mut qs, &mut self.queues);
        let ghost qs0 = qs@;
        let n = qs.len();
        let mut i: usize = 0;
        while i < n
            invariant
                n == qs.len(),
                i <= n,
                qs@ == qs0,
                qs0 == old(self).queues@,
                kinds_distinct(qs0),
                self.none@.len() == 0,
                self.queues@.len() == 0,
                forall|j: int| 0 <= j < i ==> #[trigger] qs0[j].spec_kind() != kind,
            decreases n - i,
        {
            if qs[i].kind() == kind {
                let q = &mut qs[i];
                q.push(msg);
                proof {
                    lemma_lookup_after_update(qs0, qs@, i as int, kind);
                }
                self.queues = qs;
                return ;
            }
            i += 1;
        }
        let mut q = MessageQueue::new(kind);
        q.push(msg);
        qs.push(q);
        proof {
            lemma_lookup_after_append(qs0, qs@, kind);
            assert(old(self).contents(kind) == Seq::<M>::empty());
            assert(lookup(qs@, kind) =~= old(self).contents(kind).push(msg));
        }
        self.queues = qs;
    }

    /// Returns the queued messages of the given kind, oldest first, without
    /// consuming them: repeated reads within a tick see the same data.
    pub fn read(&self, kind: u64) -> (r: &Vec<M>)
        ensures
            r@ == self.contents(kind),
    {
        proof {
            use_type_invariant(&*self);
        }
        let n = self.queues.len();
        let mut i: usize = 0;
        while i < n
            invariant
                n == self.queues.len(),
                i <= n,
                kinds_distinct(self.queues@),
                forall|j: int| 0 <= j < i ==> #[trigger] self.queues@[j].spec_kind() != kind,
            decreases n - i,
        {
            if self.queues[i].kind() == kind {
                proof {
                    assert(has_kind(self.queues@, kind));
                    let ki = kind_index(self.queues@, kind);
                    assert(self.queues@[ki].spec_kind() == kind);
                    assert(ki == i);
                }
                return self.queues[i].read();
            }
            i += 1;
        }
        proof {
            lemma_lookup_absent(self.queues@, kind);
        }
        &self.none
    }

    /// Returns true if any message of the given kind is queued.
    pub fn has_messages(&self, kind: u64) -> (r: bool)
        ensures
            r == (self.contents(kind).len() != 0),
    {
        self.count(kind) != 0
    }

    /// Returns the number of messages of the given kind currently queued.
    pub fn count(&self, kind: u64) -> (n: usize)
        ensures
            n == self.contents(kind).len(),
    {
        self.read(kind).len()
    }

    /// Empties the queue of the given kind, retaining its storage; queues
    /// for other kinds are untouched.
    pub fn clear(&mut self, kind: u64)
        ensures
            final(self).contents(kind) == Seq::<M>::empty(),
            forall|k: u64| k != kind ==> final(self).contents(k) == old(self).contents(k),
    {
        proof {
            use_type_invariant(&*self);
        }
        let mut qs: Vec<MessageQueue<M>> = Vec::new();
        core::mem::swap(&mut qs, &mut self.queues);
        let ghost qs0 = qs@;
        let n = qs.len();
        let mut i: usize = 0;
        while i < n
            invariant
                n == qs.len(),
                i <= n,
                qs@ == qs0,
                qs0 == old(self).queues@,
                kinds_distinct(qs0),
                self.none@.len() == 0,
                self.queues@.len() == 0,
                forall|j: int| 0 <= j < i ==> #[trigger] qs0[j].spec_kind() != kind,
            decreases n - i,
        {
            if qs[i].kind() == kind {
                let q = &mut qs[i];
                q.clear_queue();
                proof {
                    lemma_lookup_after_update(qs0, qs@, i as int, kind);
                }
                self.queues = qs;
                return ;
            }
            i += 1;
        }
        proof {
            lemma_lookup_absent(qs0, kind);
        }
        self.queues = qs;
    }

    /// Empties every queue, retaining both the per-kind queues and their
    /// storage; called once per tick to bound memory from cold kinds.
    pub fn clear_all(&mut self)
        ensures
            forall|k: u64| final(self).contents(k) == Seq::<M>::empty(),
    {
        proof {
            use_type_invariant(&*self);
        }
        let mut qs: Vec<MessageQueue<M>> = Vec::new();
        core::mem::swap(&mut qs, &mut self.queues);
        let n = qs.len();
        let mut i: usize = 0;
        while i < n
            invariant
                n == qs.len(),
                i <= n,
                kinds_distinct(qs@),
                self.none@.len() == 0,
                self.queues@.len() == 0,
                forall|j: int| 0 <= j < i ==> #[trigger] qs@[j].contents() == Seq::<M>::empty(),
            decreases n - i,
        {
            let ghost qsi = qs@;
            let q = &mut qs[i];
            q.clear_queue();
            proof {
                assert(forall|j: int| 0 <= j < qs@.len() && j != i ==> qs@[j] == qsi[j]);
            }
            i += 1;
        }
        proof {
            assert forall|k: u64| lookup(qs@, k) == Seq::<M>::empty() by {
                if has_kind(qs@, k) {
                    let ki = kind_index(qs@, k);
                    assert(qs@[ki].contents() == Seq::<M>::empty());
                }
            }
        }
        self.queues = qs;
    }
}

/// After replacing the queue at index `i` (same kind, any contents), the
/// looked-up contents of that kind are the new queue's contents, and every
/// other kind's contents are unchanged.
proof fn lemma_lookup_after_update<M>(
    qs0: Seq<MessageQueue<M>>,
    qs1: Seq<MessageQueue<M>>,
    i: int,
    kind: u64,
)
    requires
        kinds_distinct(qs0),
        0 <= i < qs0.len(),
        qs1.len() == qs0.len(),
        qs0[i].spec_kind() == kind,
        qs1[i].spec_kind() == kind,
        forall|j: int| 0 <= j < qs0.len() && j != i ==> qs0[j] == qs1[j],
    ensures
        kinds_distinct(qs1),
        lookup(qs1, kind) == qs1[i].contents(),
        forall|k: u64| k != kind ==> lookup(qs1, k) == lookup(qs0, k),
{
    assert(kinds_distinct(qs1));
    assert(has_kind(qs1, kind));
    let i1 = kind_index(qs1, kind);
    assert(0 <= i1 < qs1.len() && qs1[i1].spec_kind() == kind);
    assert(i1 == i);
    assert forall|k: u64| k != kind implies lookup(qs1, k) == lookup(qs0, k) by {
        if has_kind(qs0, k) {
            let j0 = kind_index(qs0, k);
            assert(qs1[j0].spec_kind() == k);
            assert(has_kind(qs1, k));
            let j1 = kind_index(qs1, k);
            assert(j1 == j0);
        } else {
            if has_kind(qs1, k) {
                let j1 = kind_index(qs1, k);
                assert(qs0[j1].spec_kind() == k);
            }
        }
    }
}

/// After appending a queue of a fresh kind, that kind's contents are the
/// new queue's contents, and every other kind's contents are unchanged.
proof fn lemma_lookup_after_append<M>(qs0: Seq<MessageQueue<M>>, qs1: Seq<MessageQueue<M>>, kind: u64)
    requires
        kinds_distinct(qs0),
        forall|j: int| 0 <= j < qs0.len() ==> #[trigger] qs0[j].spec_kind() != kind,
        qs1.len() == qs0.len() + 1,
        forall|j: int| 0 <= j < qs0.len() ==> qs0[j] == qs1[j],
        qs1[qs0.len() as int].spec_kind() == kind,
    ensures
        kinds_distinct(qs1),
        lookup(qs1, kind) == qs1[qs0.len() as int].contents(),
        forall|k: u64| k != kind ==> lookup(qs1, k) == lookup(qs0, k),
{
    let n = qs0.len() as int;
    assert(kinds_distinct(qs1));
    assert(has_kind(qs1, kind));
    let i1 = kind_index(qs1, kind);
    assert(0 <= i1 < qs1.len() && qs1[i1].spec_kind() == kind);
    assert(i1 == n);
    assert forall|k: u64| k != kind implies lookup(qs1, k) == lookup(qs0, k) by {
        if has_kind(qs0, k) {
            let j0 = kind_index(qs0, k);
            assert(qs1[j0].spec_kind() == k);
            assert(has_kind(qs1, k));
            let j1 = kind_index(qs1, k);
            assert(j1 == j0);
        } else {
            if has_kind(qs1, k) {
                let j1 = kind_index(qs1, k);
                assert(0 <= j1 < n ==> qs0[j1].spec_kind() == k);
                assert(j1 == n ==> qs1[j1].spec_kind() == kind);
            }
        }
    }
}

/// When no queue stores the given kind, its contents are empty.
proof fn lemma_lookup_absent<M>(qs: Seq<MessageQueue<M>>, kind: u64)
    requires
        forall|j: int| 0 <= j < qs.len() ==> #[trigger] qs[j].spec_kind() != kind,
    ensures
        lookup(qs, kind) == Seq::<M>::empty(),
{
    if has_kind(qs, kind) {
        let j = kind_index(qs, kind);
        assert(qs[j].spec_kind() == kind);
    }
}

/// A message kind that is never pushed during a tick stays empty: starting
/// from a bus state in which the kind has no queued messages, any sequence
/// of pushes of other kinds leaves the kind's contents empty, so `read`
/// returns an empty view and `count` returns zero for it.
pub proof fn lemma_unpushed_kind_stays_empty<M>(
    before: MessageBus<M>,
    after: MessageBus<M>,
    kind: u64,
    pushed_kind: u64,
    msg: M,
)
    requires
        before.contents(kind).len() == 0,
        pushed_kind != kind,
        after.contents(pushed_kind) == before.contents(pushed_kind).push(msg),
        forall|k: u64| k != pushed_kind ==> after.contents(k) == before.contents(k),
    ensures
        after.contents(kind).len() == 0,
{
}

} // verus!
