//! Per-tick input buffer on the platform side of the channel.
//!
//! Discrete events (keys, buttons) are kept in submission order with
//! consecutive duplicates dropped; continuous events (mouse movement) are
//! coalesced so that only the latest sample of each kind survives —
//! recency wins, order is not preserved.

use crate::input::event::{event_eq, InputEvent};
use crate::vecset::vec_capacity;
use vstd::prelude::*;

verus! {

/// Whether the buffer holds an event of the same kind as the given one,
/// under event equality (which, for mouse movement, ignores coordinates).
pub open spec fn has_same_event(s: Seq<InputEvent>, e: InputEvent) -> bool {
    exists|i: int| 0 <= i < s.len() && #[trigger] event_eq(s[i], e)
}

/// The index of the event of the same kind, when one exists.
pub open spec fn same_event_index(s: Seq<InputEvent>, e: InputEvent) -> int {
    choose|i: int| 0 <= i < s.len() && #[trigger] event_eq(s[i], e)
}

/// Per-tick input buffer with order-preserving discrete storage and
/// latest-wins continuous storage.
pub struct InputBuffer {
    discrete: Vec<InputEvent>,
    continuous: Vec<InputEvent>,
}

impl InputBuffer {
    /// The buffered discrete events, in submission order.
    pub closed spec fn discrete_spec(self) -> Seq<InputEvent> {
        self.discrete@
    }

    /// The buffered continuous events, at most one per event kind.
    pub closed spec fn continuous_spec(self) -> Seq<InputEvent> {
        self.continuous@
    }

    #[verifier::type_invariant]
    closed spec fn wf(self) -> bool {
        forall|i: int, j: int|
            0 <= i < j < self.continuous@.len() ==> !event_eq(
                #[trigger] self.continuous@[i],
                #[trigger] self.continuous@[j],
            )
    }

    /// Creates an empty buffer with storage preallocated for a typical
    /// tick.
    pub fn new() -> (b: Self)
        ensures
            b.discrete_spec().len() == 0,
            b.continuous_spec().len() == 0,
    {
        InputBuffer { discrete: Vec::with_capacity(128), continuous: Vec::with_capacity(1) }
    }

    /// Adds a continuous event, replacing any buffered event of the same
    /// kind: the latest sample wins.
    pub fn push_continuous(&mut self, event: InputEvent)
        ensures
            final(self).discrete_spec() == old(self).discrete_spec(),
            final(self).continuous_spec() == (if has_same_event(old(self).continuous_spec(), event) {
                old(self).continuous_spec().update(
                    same_event_index(old(self).continuous_spec(), event),
                    event,
                )
            } else {
                old(self).continuous_spec().push(event)
            }),
    {
        proof {
            use_type_invariant(&*self);
        }
        let mut cont: Vec<InputEvent> = Vec::new();
        core::mem::swap(&mut cont, &mut self.continuous);
        let ghost c0 = cont@;
        let n = cont.len();
        let mut i: usize = 0;
        while i < n
            invariant
                n == cont@.len(),
                i <= n,
                cont@ == c0,
                c0 == old(self).continuous@,
                self.continuous@.len() == 0,
                self.discrete@ == old(self).discrete@,
                forall|j: int| 0 <= j < i ==> !event_eq(#[trigger] c0[j], event),
                forall|a: int, b: int|
                    0 <= a < b < c0.len() ==> !event_eq(#[trigger] c0[a], #[trigger] c0[b]),
            decreases n - i,
        {
            if cont[i] == event {
                let slot = &mut cont[i];
                *slot = event;
                proof {
                    assert(event_eq(c0[i as int], event));
                    assert(has_same_event(c0, event));
                    let si = same_event_index(c0, event);
                    assert(event_eq(c0[si], event));
                    assert(si == i as int) by {
                        if si < i as int {
                            assert(!event_eq(c0[si], c0[i as int]));
                        }
                        if si > i as int {
                            assert(!event_eq(c0[i as int], c0[si]));
                        }
                    }
                    assert forall|a: int, b: int|
                        0 <= a < b < cont@.len() implies !event_eq(
                        #[trigger] cont@[a],
                        #[trigger] cont@[b],
                    ) by {
                        if a != i as int && b != i as int {
                            assert(cont@[a] == c0[a] && cont@[b] == c0[b]);
                        }
                    }
                }
                self.continuous = cont;
                return ;
            }
            i += 1;
        }
        proof {
            if has_same_event(c0, event) {
                let si = same_event_index(c0, event);
                assert(event_eq(c0[si], event));
            }
        }
        cont.push(event);
        self.continuous = cont;
    }

    /// Adds a discrete event, dropping it only when it equals the most
    /// recently buffered one (consecutive duplicates are platform
    /// double-delivery).
    pub fn push_discrete(&mut self, event: InputEvent)
        ensures
            final(self).continuous_spec() == old(self).continuous_spec(),
            final(self).discrete_spec() == (if old(self).discrete_spec().len() > 0 && event_eq(
                old(self).discrete_spec().last(),
                event,
            ) {
                old(self).discrete_spec()
            } else {
                old(self).discrete_spec().push(event)
            }),
    {
        proof {
            use_type_invariant(&*self);
        }
        let n = self.discrete.len();
        let mut same_last = false;
        if n > 0 {
            if self.discrete[n - 1] == event {
                same_last = true;
            }
        }
        if !same_last {
            let mut disc: Vec<InputEvent> = Vec::new();
            core::mem::swap(&mut disc, &mut self.discrete);
            disc.push(event);
            self.discrete = disc;
        }
    }

    /// Drains all buffered events, retaining the allocated storage for
    /// the next tick. Returns the discrete and continuous events, or
    /// nothing when both stores are empty.
    pub fn drain(&mut self) -> (r: Option<(Vec<InputEvent>, Vec<InputEvent>)>)
        ensures
            final(self).discrete_spec().len() == 0,
            final(self).continuous_spec().len() == 0,
            match r {
                Some(pair) => pair.0@ == old(self).discrete_spec() && pair.1@ == old(
                    self,
                ).continuous_spec(),
                None => old(self).discrete_spec().len() == 0 && old(
                    self,
                ).continuous_spec().len() == 0,
            },
    {
        proof {
            use_type_invariant(&*self);
        }
        if self.is_empty() {
            return None;
        }
        let discrete_cap = vec_capacity(&self.discrete);
        let continuous_cap = vec_capacity(&self.continuous);
        let mut d: Vec<InputEvent> = Vec::new();
        core::mem::swap(&mut d, &mut self.discrete);
        let mut c: Vec<InputEvent> = Vec::new();
        core::mem::swap(&mut c, &mut self.continuous);
        self.discrete = Vec::with_capacity(discrete_cap);
        self.continuous = Vec::with_capacity(continuous_cap);
        Some((d, c))
    }

    /// Returns the number of buffered discrete events.
    pub fn discrete_len(&self) -> (n: usize)
        ensures
            n == self.discrete_spec().len(),
    {
        self.discrete.len()
    }

    /// Returns the number of buffered continuous events.
    pub fn continuous_len(&self) -> (n: usize)
        ensures
            n == self.continuous_spec().len(),
    {
        self.continuous.len()
    }

    /// Returns true if both stores are empty.
    pub fn is_empty(&self) -> (r: bool)
        ensures
            r == (self.discrete_spec().len() == 0 && self.continuous_spec().len() == 0),
    {
        self.discrete.is_empty() && self.continuous.is_empty()
    }

    /// Returns how many discrete events the buffer can hold without
    /// reallocating.
    pub fn discrete_capacity(&self) -> (c: usize)
        ensures
            c >= self.discrete_spec().len(),
    {
        vec_capacity(&self.discrete)
    }

    /// Returns how many continuous events the buffer can hold without
    /// reallocating.
    pub fn continuous_capacity(&self) -> (c: usize)
        ensures
            c >= self.continuous_spec().len(),
    {
        vec_capacity(&self.continuous)
    }
}

} // verus!
