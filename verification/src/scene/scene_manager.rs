//! Scene registration, the scene stack, and transition processing.
//!
//! Scenes are registered once under a unique key and referenced from a
//! stack of keys. The stack holds each key at most once; an invalid
//! transition (duplicate push, unregistered key, absent removal target) is
//! dropped, never fatal, so one bad request cannot corrupt the stack.

use crate::input::action::Action;
use crate::globals::GlobalContext;
use crate::scene::Scene;
use vstd::prelude::*;

verus! {

/// Trait for scene identifiers.
///
/// Scene keys uniquely identify scenes, and are typically implemented by
/// application-specific enums. Implementors supply an equality test that
/// must agree with logical equality.
pub trait SceneKey: Sized + Clone + Copy + Send + 'static {
    /// Decides equality of two keys; must agree with logical equality.
    fn same_key(&self, other: &Self) -> (r: bool)
        ensures
            r == (self == other),
    ;
}

/// A requested scene stack operation, applied at the tick boundary.
#[derive(Debug, Clone, Copy, PartialEq, Eq)]
pub enum SceneTransition<K: SceneKey> {
    /// Adds a scene to the top of the stack.
    Push(K),
    /// Removes a scene from the stack, wherever it is positioned.
    Remove(K),
    /// Replaces the first scene with the second, in place.
    Replace(K, K),
    /// Clears all scenes from the stack.
    Clear,
    /// No transition occurs.
    Empty,
}

impl<K: SceneKey> Default for SceneTransition<K> {
    /// Defaults to the no-op transition.
    fn default() -> (t: Self)
        ensures
            t == SceneTransition::<K>::Empty,
    {
        SceneTransition::Empty
    }
}

/// The stack after one transition, given the set of registered keys.
///
/// A push of a key already stacked or not registered is dropped; so is a
/// removal of an absent key, and a replacement whose old key is absent,
/// whose new key is already stacked, or whose new key is not registered.
pub open spec fn stack_apply<K: SceneKey>(
    stack: Seq<K>,
    regs: Set<K>,
    t: SceneTransition<K>,
) -> Seq<K> {
    match t {
        SceneTransition::Push(k) => {
            if stack.contains(k) || !regs.contains(k) {
                stack
            } else {
                stack.push(k)
            }
        },
        SceneTransition::Remove(k) => {
            if stack.contains(k) {
                stack.remove_value(k)
            } else {
                stack
            }
        },
        SceneTransition::Replace(old_key, new_key) => {
            if !stack.contains(old_key) || stack.contains(new_key) || !regs.contains(new_key) {
                stack
            } else {
                match stack.index_of_first(old_key) {
                    Some(i) => stack.update(i, new_key),
                    None => stack,
                }
            }
        },
        SceneTransition::Clear => Seq::empty(),
        SceneTransition::Empty => stack,
    }
}

/// The stack after a sequence of transitions, applied in arrival order.
pub open spec fn stack_apply_all<K: SceneKey>(
    stack: Seq<K>,
    regs: Set<K>,
    ts: Seq<SceneTransition<K>>,
) -> Seq<K>
    decreases ts.len(),
{
    if ts.len() == 0 {
        stack
    } else {
        stack_apply_all(stack_apply(stack, regs, ts[0]), regs, ts.drop_first())
    }
}

/// Applying a sequence and then one more transition is the same as
/// applying the sequence extended by that transition.
pub proof fn lemma_stack_apply_all_snoc<K: SceneKey>(
    stack: Seq<K>,
    regs: Set<K>,
    ts: Seq<SceneTransition<K>>,
    t: SceneTransition<K>,
)
    ensures
        stack_apply_all(stack, regs, ts.push(t)) == stack_apply(
            stack_apply_all(stack, regs, ts),
            regs,
            t,
        ),
    decreases ts.len(),
{
    if ts.len() == 0 {
        assert(ts.push(t)[0] == t);
        assert(ts.push(t).drop_first() =~= Seq::<SceneTransition<K>>::empty());
        assert(stack_apply_all(stack, regs, ts.push(t)) == stack_apply_all(
            stack_apply(stack, regs, t),
            regs,
            ts.push(t).drop_first(),
        ));
        assert(stack_apply_all(stack, regs, ts) == stack);
    } else {
        assert(ts.push(t)[0] == ts[0]);
        assert(ts.push(t).drop_first() =~= ts.drop_first().push(t));
        lemma_stack_apply_all_snoc(stack_apply(stack, regs, ts[0]), regs, ts.drop_first(), t);
        assert(stack_apply_all(stack, regs, ts.push(t)) == stack_apply_all(
            stack_apply(stack, regs, ts[0]),
            regs,
            ts.drop_first().push(t),
        ));
        assert(stack_apply_all(stack, regs, ts) == stack_apply_all(
            stack_apply(stack, regs, ts[0]),
            regs,
            ts.drop_first(),
        ));
    }
}

/// Pushing a key that is already on the stack leaves the stack unchanged
/// in length and order, whatever the registered set.
pub proof fn lemma_push_idempotent_on_stacked<K: SceneKey>(stack: Seq<K>, regs: Set<K>, k: K)
    requires
        stack.contains(k),
    ensures
        stack_apply(stack, regs, SceneTransition::Push(k)) == stack,
{
}

/// One registered scene: its key and its state.
struct SceneEntry<K: SceneKey, T> {
    key: K,
    scene: T,
}

/// Returns true if the vector contains the key.
fn keys_contain<K: SceneKey>(v: &Vec<K>, k: K) -> (r: bool)
    ensures
        r == v@.contains(k),
{
    let n = v.len();
    let mut i: usize = 0;
    while i < n
        invariant
            n == v@.len(),
            i <= n,
            forall|j: int| 0 <= j < i ==> v@[j] != k,
        decreases n - i,
    {
        if v[i].same_key(&k) {
            proof {
                assert(v@.contains(k));
            }
            return true;
        }
        i += 1;
    }
    false
}

/// Returns the index of the first occurrence of the key, if any.
fn keys_index_of<K: SceneKey>(v: &Vec<K>, k: K) -> (r: Option<usize>)
    ensures
        match r {
            Some(i) => i < v@.len() && v@[i as int] == k && (forall|j: int|
                0 <= j < i ==> v@[j] != k),
            None => !v@.contains(k),
        },
{
    let n = v.len();
    let mut i: usize = 0;
    while i < n
        invariant
            n == v@.len(),
            i <= n,
            forall|j: int| 0 <= j < i ==> v@[j] != k,
        decreases n - i,
    {
        if v[i].same_key(&k) {
            return Some(i);
        }
        i += 1;
    }
    None
}

/// Returns the index of the entry registered under the key, if any.
fn find_entry<K: SceneKey, T>(scenes: &Vec<SceneEntry<K, T>>, k: K) -> (r: Option<usize>)
    ensures
        match r {
            Some(i) => i < scenes@.len() && scenes@[i as int].key == k,
            None => forall|j: int| 0 <= j < scenes@.len() ==> #[trigger] scenes@[j].key != k,
        },
{
    let n = scenes.len();
    let mut i: usize = 0;
    while i < n
        invariant
            n == scenes@.len(),
            i <= n,
            forall|j: int| 0 <= j < i ==> #[trigger] scenes@[j].key != k,
        decreases n - i,
    {
        if scenes[i].key.same_key(&k) {
            return Some(i);
        }
        i += 1;
    }
    None
}

/// Whether some entry is registered under the key.
spec fn entry_registered<K: SceneKey, T>(es: Seq<SceneEntry<K, T>>, k: K) -> bool {
    exists|i: int| 0 <= i < es.len() && #[trigger] es[i].key == k
}

/// The index of the entry registered under the key, when one exists.
spec fn entry_index<K: SceneKey, T>(es: Seq<SceneEntry<K, T>>, k: K) -> int {
    choose|i: int| 0 <= i < es.len() && #[trigger] es[i].key == k
}

/// No two entries share a key.
spec fn entries_distinct<K: SceneKey, T>(es: Seq<SceneEntry<K, T>>) -> bool {
    forall|i: int, j: int| 0 <= i < j < es.len() ==> #[trigger] es[i].key != #[trigger] es[j].key
}

/// After replacing the entry at index `si` with one of the same key, the
/// registry's keys are unchanged and every other key's stored scene is
/// unchanged.
proof fn lemma_entry_update_preserves_others<K: SceneKey, T>(
    pre: Seq<SceneEntry<K, T>>,
    post: Seq<SceneEntry<K, T>>,
    si: int,
)
    requires
        0 <= si < pre.len(),
        post.len() == pre.len(),
        post[si].key == pre[si].key,
        forall|i: int| 0 <= i < pre.len() && i != si ==> post[i] == pre[i],
        entries_distinct(pre),
    ensures
        entries_distinct(post),
        Seq::new(post.len(), |i: int| post[i].key) == Seq::new(pre.len(), |i: int| pre[i].key),
        forall|k: K| #![trigger entry_registered(pre, k)]
            k != pre[si].key && entry_registered(pre, k) ==> entry_registered(post, k)
                && post[entry_index(post, k)].scene == pre[entry_index(pre, k)].scene,
{
    assert forall|i: int| 0 <= i < post.len() implies #[trigger] post[i].key == pre[i].key by {}
    assert(entries_distinct(post));
    assert(Seq::new(post.len(), |i: int| post[i].key) =~= Seq::new(
        pre.len(),
        |i: int| pre[i].key,
    ));
    assert forall|k: K| #![trigger entry_registered(pre, k)]
        k != pre[si].key && entry_registered(pre, k) implies entry_registered(post, k) && post[
        entry_index(post, k)].scene == pre[entry_index(pre, k)].scene by {
        let i0 = entry_index(pre, k);
        assert(0 <= i0 < pre.len() && pre[i0].key == k);
        assert(i0 != si);
        assert(post[i0].key == k);
        assert(entry_registered(post, k));
        let i1 = entry_index(post, k);
        assert(0 <= i1 < post.len() && post[i1].key == k);
        assert(i1 == i0);
    }
}

/// Manages scene lifecycle and stack-based scene switching.
///
/// Scenes are registered once and referenced by key; the stack determines
/// which scenes are active. Lifecycle: a key is unregistered, then
/// registered, then active while on the stack, and registered again once
/// removed, from where it can re-enter.
pub struct SceneManager<K: SceneKey, A: Action, T: Scene<K, A>> {
    scenes: Vec<SceneEntry<K, T>>,
    stack: Vec<K>,
    phantom: core::marker::PhantomData<A>,
}

impl<K: SceneKey, A: Action, T: Scene<K, A>> SceneManager<K, A, T> {
    /// The keys of the registered scenes, in registration order.
    pub closed spec fn scene_keys(self) -> Seq<K> {
        Seq::new(self.scenes@.len(), |i: int| self.scenes@[i].key)
    }

    /// Whether a scene is registered under the key.
    pub open spec fn is_registered(self, k: K) -> bool {
        self.scene_keys().contains(k)
    }

    /// The set of registered keys.
    pub open spec fn registered_set(self) -> Set<K> {
        Set::new(|k: K| self.is_registered(k))
    }

    /// The stack of active scene keys, bottom first.
    pub closed spec fn stack_keys(self) -> Seq<K> {
        self.stack@
    }

    /// The scene stored under the key, when one is registered.
    pub closed spec fn scene_at(self, k: K) -> T {
        self.scenes@[entry_index(self.scenes@, k)].scene
    }

    /// The window of the stack that one update pass covers, when the
    /// update begins in this state: position `j` up to the top, where
    /// every scene strictly above `j` is transparent and the window is
    /// bounded below either by the bottom of the stack or by the first
    /// opaque scene.
    pub open spec fn update_window_at(self, j: int) -> bool {
        &&& 0 <= j < self.stack_keys().len()
        &&& (forall|p: int|
            j < p < self.stack_keys().len() ==> self.scene_at(
                #[trigger] self.stack_keys()[p],
            ).transparent_spec())
        &&& (j == 0 || !self.scene_at(self.stack_keys()[j]).transparent_spec())
    }

    /// A registered key has an entry, and conversely.
    proof fn lemma_registered_entry(self, k: K)
        ensures
            self.is_registered(k) == entry_registered(self.scenes@, k),
    {
        if self.is_registered(k) {
            let i = choose|i: int|
                0 <= i < self.scene_keys().len() && self.scene_keys()[i] == k;
            assert(self.scenes@[i].key == k);
            assert(entry_registered(self.scenes@, k));
        }
        if entry_registered(self.scenes@, k) {
            let i = entry_index(self.scenes@, k);
            assert(self.scenes@[i].key == k);
            assert(self.scene_keys()[i] == k);
            assert(self.is_registered(k));
        }
    }

    /// A key appears at most once in the stack and at most once in the
    /// registry, and every stacked key is registered.
    pub closed spec fn well_formed(self) -> bool {
        &&& self.stack@.no_duplicates()
        &&& (forall|i: int, j: int|
            0 <= i < j < self.scenes@.len() ==> #[trigger] self.scenes@[i].key
                != #[trigger] self.scenes@[j].key)
        &&& (forall|i: int|
            0 <= i < self.stack@.len() ==> self.is_registered(#[trigger] self.stack@[i]))
    }

    /// Creates a scene manager with no registered scenes and an empty
    /// stack.
    pub fn new() -> (m: Self)
        ensures
            m.well_formed(),
            m.stack_keys() == Seq::<K>::empty(),
            forall|k: K| !m.is_registered(k),
    {
        let m = SceneManager {
            scenes: Vec::new(),
            stack: Vec::new(),
            phantom: core::marker::PhantomData,
        };
        proof {
            assert forall|k: K| !m.is_registered(k) by {
                assert(m.scene_keys().len() == 0);
            }
        }
        m
    }

    /// Returns the stack of active scene keys, bottom first.
    pub fn stack(&self) -> (r: &Vec<K>)
        ensures
            r@ == self.stack_keys(),
    {
        &self.stack
    }

    /// Returns true if a scene is registered under the key.
    pub fn has_scene(&self, key: K) -> (r: bool)
        ensures
            r == self.is_registered(key),
    {
        match find_entry(&self.scenes, key) {
            Some(i) => {
                proof {
                    assert(self.scene_keys()[i as int] == key);
                }
                true
            },
            None => {
                proof {
                    if self.is_registered(key) {
                        let j = choose|j: int|
                            0 <= j < self.scene_keys().len() && self.scene_keys()[j] == key;
                        assert(self.scenes@[j].key == key);
                    }
                }
                false
            },
        }
    }

    /// Registers a scene under a key; re-registration replaces the stored
    /// scene and keeps the key's stack position. Other keys' stored
    /// scenes are untouched, and no lifecycle hook runs.
    pub fn register_scene(&mut self, key: K, scene: T)
        requires
            old(self).well_formed(),
        ensures
            final(self).well_formed(),
            final(self).stack_keys() == old(self).stack_keys(),
            forall|k: K|
                #[trigger] final(self).is_registered(k) == (old(self).is_registered(k) || k
                    == key),
            final(self).registered_set() == old(self).registered_set().insert(key),
            final(self).scene_at(key) == scene,
            forall|k: K|
                k != key && old(self).is_registered(k) ==> #[trigger] final(self).scene_at(k)
                    == old(self).scene_at(k),
    {
        let ghost keys0 = self.scene_keys();
        let ghost pre = self.scenes@;
        match find_entry(&self.scenes, key) {
            Some(i) => {
                let e = &mut self.scenes[i];
                e.scene = scene;
                proof {
                    lemma_entry_update_preserves_others(pre, self.scenes@, i as int);
                    assert(self.scene_keys() =~= keys0);
                    assert(keys0.contains(key)) by {
                        assert(keys0[i as int] == key);
                    }
                    assert forall|k: K|
                        final(self).is_registered(k) == (old(self).is_registered(k) || k
                            == key) by {}
                    let i1 = entry_index(self.scenes@, key);
                    assert(0 <= i1 < self.scenes@.len() && self.scenes@[i1].key == key) by {
                        assert(self.scenes@[i as int].key == key);
                    }
                    assert(i1 == i as int);
                    assert(final(self).scene_at(key) == scene);
                    assert forall|k: K|
                        k != key && old(self).is_registered(k) implies #[trigger] final(self).scene_at(k) == old(self).scene_at(k) by {
                        old(self).lemma_registered_entry(k);
                    }
                }
            },
            None => {
                self.scenes.push(SceneEntry { key, scene });
                proof {
                    let keys1 = self.scene_keys();
                    assert(keys1 =~= keys0.push(key));
                    assert forall|k: K| keys1.contains(k) implies (keys0.contains(k) || k
                        == key) by {
                        let j = choose|j: int| 0 <= j < keys1.len() && keys1[j] == k;
                        if j < keys0.len() {
                            assert(keys0[j] == k);
                        }
                    }
                    assert forall|k: K| keys0.contains(k) implies keys1.contains(k) by {
                        let j = choose|j: int| 0 <= j < keys0.len() && keys0[j] == k;
                        assert(keys1[j] == k);
                    }
                    assert(keys1.contains(key)) by {
                        assert(keys1[keys0.len() as int] == key);
                    }
                    assert forall|a: int, b: int|
                        0 <= a < b < self.scenes@.len() implies #[trigger] self.scenes@[a].key
                        != #[trigger] self.scenes@[b].key by {
                        if b == keys0.len() {
                            assert(!keys0.contains(key));
                            assert(keys0[a] == self.scenes@[a].key);
                        }
                    }
                    let n = pre.len() as int;
                    let i1 = entry_index(self.scenes@, key);
                    assert(0 <= i1 < self.scenes@.len() && self.scenes@[i1].key == key) by {
                        assert(self.scenes@[n].key == key);
                    }
                    assert(i1 == n) by {
                        if i1 < n {
                            assert(pre[i1].key == key);
                            assert(keys0[i1] == key);
                            assert(keys0.contains(key));
                        }
                    }
                    assert(final(self).scene_at(key) == scene);
                    assert forall|k: K|
                        k != key && old(self).is_registered(k) implies #[trigger] final(self).scene_at(k) == old(self).scene_at(k) by {
                        old(self).lemma_registered_entry(k);
                        let i0 = entry_index(pre, k);
                        assert(0 <= i0 < n && pre[i0].key == k);
                        assert(self.scenes@[i0].key == k);
                        assert(entry_registered(self.scenes@, k));
                        let i2 = entry_index(self.scenes@, k);
                        assert(0 <= i2 < self.scenes@.len() && self.scenes@[i2].key == k);
                        assert(i2 == i0);
                    }
                }
            },
        }
        proof {
            assert(final(self).registered_set() =~= old(self).registered_set().insert(key));
        }
    }

    /// Registers a scene and immediately places it at the bottom of the
    /// stack as the initial scene, unless its key is already stacked. Its
    /// `on_enter` hook runs when [`Self::start`] is called.
    pub fn register_default(&mut self, key: K, scene: T)
        requires
            old(self).well_formed(),
        ensures
            final(self).well_formed(),
            forall|k: K|
                #[trigger] final(self).is_registered(k) == (old(self).is_registered(k) || k
                    == key),
            final(self).registered_set() == old(self).registered_set().insert(key),
            final(self).stack_keys() == (if old(self).stack_keys().contains(key) {
                old(self).stack_keys()
            } else {
                old(self).stack_keys().push(key)
            }),
    {
        self.register_scene(key, scene);
        let ghost mid = *self;
        if !keys_contain(&self.stack, key) {
            proof {
                let s = self.stack@;
                assert forall|i: int| 0 <= i < s.len() implies s[i] != key by {
                    if s[i] == key {
                        assert(s.contains(key));
                    }
                }
            }
            self.stack.push(key);
            proof {
                assert(self.scenes@ == mid.scenes@);
                assert(self.scene_keys() == mid.scene_keys());
                let s1 = self.stack@;
                assert(s1 == mid.stack@.push(key));
                assert forall|a: int, b: int| 0 <= a < b < s1.len() implies s1[a] != s1[b] by {
                    if b < mid.stack@.len() {
                        assert(s1[a] == mid.stack@[a] && s1[b] == mid.stack@[b]);
                    } else {
                        assert(s1[a] == mid.stack@[a] && s1[b] == key);
                    }
                }
                assert forall|x: int|
                    0 <= x < s1.len() implies self.is_registered(#[trigger] s1[x]) by {
                    if x < mid.stack@.len() {
                        assert(s1[x] == mid.stack@[x]);
                        assert(mid.is_registered(mid.stack@[x]));
                    } else {
                        assert(s1[x] == key);
                        assert(mid.is_registered(key));
                    }
                }
            }
        }
        proof {
            assert(self.scenes@ == mid.scenes@);
            assert(self.scene_keys() == mid.scene_keys());
            assert forall|k: K|
                #[trigger] self.is_registered(k) == (old(self).is_registered(k) || k == key) by {
                assert(mid.is_registered(k) == (old(self).is_registered(k) || k == key));
            }
            assert(final(self).registered_set() =~= old(self).registered_set().insert(key));
        }
    }

    /// Calls `on_enter` on the initial scene, if the stack was pre-seeded
    /// with one; invoked once before the tick loop. Every other key's
    /// stored scene is untouched.
    pub fn start(&mut self, context: &mut GlobalContext<K, A>)
        requires
            old(self).well_formed(),
        ensures
            final(self).well_formed(),
            final(self).stack_keys() == old(self).stack_keys(),
            forall|k: K| #[trigger] final(self).is_registered(k) == old(self).is_registered(k),
            final(self).registered_set() == old(self).registered_set(),
            old(self).stack_keys().len() == 0 ==> *final(self) == *old(self),
            forall|k: K|
                old(self).is_registered(k) && (old(self).stack_keys().len() == 0 || k != old(
                    self,
                ).stack_keys()[0]) ==> #[trigger] final(self).scene_at(k) == old(self).scene_at(k),
    {
        let ghost keys0 = self.scene_keys();
        let ghost pre = self.scenes@;
        if self.stack.len() > 0 {
            let initial = self.stack[0];
            match find_entry(&self.scenes, initial) {
                Some(i) => {
                    let e = &mut self.scenes[i];
                    e.scene.on_enter(context);
                    proof {
                        lemma_entry_update_preserves_others(pre, self.scenes@, i as int);
                        assert(self.scene_keys() =~= keys0);
                        assert forall|k: K|
                            old(self).is_registered(k) && k != old(self).stack_keys()[0]
                                implies #[trigger] final(self).scene_at(k) == old(self).scene_at(
                            k,
                        ) by {
                            old(self).lemma_registered_entry(k);
                        }
                    }
                },
                None => {},
            }
        }
        proof {
            assert(final(self).registered_set() =~= old(self).registered_set());
        }
    }

    /// Updates the active window of the stack: every transparent scene
    /// from the top down, plus the first opaque scene encountered. Scenes
    /// outside that window, and all unstacked scenes, are untouched. An
    /// empty stack is a no-op and leaves the manager unchanged.
    pub fn update(&mut self, context: &mut GlobalContext<K, A>)
        requires
            old(self).well_formed(),
        ensures
            final(self).well_formed(),
            final(self).stack_keys() == old(self).stack_keys(),
            forall|k: K| #[trigger] final(self).is_registered(k) == old(self).is_registered(k),
            final(self).registered_set() == old(self).registered_set(),
            old(self).stack_keys().len() == 0 ==> *final(self) == *old(self),
            old(self).stack_keys().len() > 0 ==> exists|j: int|
                {
                    &&& #[trigger] old(self).update_window_at(j)
                    &&& forall|k: K|
                        old(self).is_registered(k) && !old(self).stack_keys().skip(j).contains(k)
                            ==> #[trigger] final(self).scene_at(k) == old(self).scene_at(k)
                },
    {
        if self.stack.len() == 0 {
            proof {
                assert(final(self).registered_set() =~= old(self).registered_set());
            }
            return ;
        }
        let to_update = self.collect_active_scenes();
        let ghost j = choose|j: int|
            self.update_window_at(j) && to_update@ == self.stack_keys().skip(j);
        self.update_scenes(&to_update, context);
        proof {
            assert(final(self).registered_set() =~= old(self).registered_set());
            assert(old(self).update_window_at(j));
            assert forall|k: K|
                old(self).is_registered(k) && !old(self).stack_keys().skip(j).contains(k)
                    implies #[trigger] final(self).scene_at(k) == old(self).scene_at(k) by {
                assert(!to_update@.contains(k));
            }
        }
    }

    /// Whether the scene registered under the key reports itself
    /// transparent; an unregistered key counts as opaque.
    fn is_transparent_at(&self, key: K) -> (r: bool)
        requires
            self.well_formed(),
        ensures
            r == (self.is_registered(key) && self.scene_at(key).transparent_spec()),
    {
        match find_entry(&self.scenes, key) {
            Some(i) => {
                proof {
                    assert(self.scenes@[i as int].key == key);
                    assert(entry_registered(self.scenes@, key));
                    let i1 = entry_index(self.scenes@, key);
                    assert(0 <= i1 < self.scenes@.len() && self.scenes@[i1].key == key);
                    assert(i1 == i as int);
                    assert(self.scene_keys()[i as int] == key);
                    assert(self.is_registered(key));
                }
                self.scenes[i].scene.is_transparent()
            },
            None => {
                proof {
                    self.lemma_registered_entry(key);
                    if entry_registered(self.scenes@, key) {
                        let i1 = entry_index(self.scenes@, key);
                        assert(self.scenes@[i1].key == key);
                    }
                }
                false
            },
        }
    }

    /// Collects the keys of the scenes to update this tick: the window
    /// from the first opaque scene (or the bottom of the stack) up to the
    /// top, every scene above its start being transparent.
    fn collect_active_scenes(&self) -> (r: Vec<K>)
        requires
            self.well_formed(),
        ensures
            self.stack_keys().len() == 0 ==> r@ == Seq::<K>::empty(),
            self.stack_keys().len() > 0 ==> exists|j: int|
                #[trigger] self.update_window_at(j) && r@ == self.stack_keys().skip(j),
    {
        let len = self.stack.len();
        let mut j = len;
        let mut opaque = false;
        while j > 0 && !opaque
            invariant
                len == self.stack@.len(),
                j <= len,
                self.well_formed(),
                !opaque ==> forall|p: int|
                    j <= p < len ==> self.scene_at(#[trigger] self.stack@[p]).transparent_spec(),
                opaque ==> j < len && !self.scene_at(self.stack@[j as int]).transparent_spec(),
                opaque ==> forall|p: int|
                    j < p < len ==> self.scene_at(#[trigger] self.stack@[p]).transparent_spec(),
            decreases j,
        {
            let key = self.stack[j - 1];
            proof {
                assert(self.is_registered(self.stack@[j - 1]));
            }
            j -= 1;
            if !self.is_transparent_at(key) {
                opaque = true;
            }
        }
        proof {
            assert(len > 0 ==> j < len);
        }
        let mut active: Vec<K> = Vec::new();
        let mut i = j;
        while i < len
            invariant
                len == self.stack@.len(),
                j <= i <= len,
                len > 0 ==> j < len,
                active@ == self.stack@.subrange(j as int, i as int),
                !opaque ==> forall|p: int|
                    j <= p < len ==> self.scene_at(#[trigger] self.stack@[p]).transparent_spec(),
                opaque ==> j < len && !self.scene_at(self.stack@[j as int]).transparent_spec(),
                opaque ==> forall|p: int|
                    j < p < len ==> self.scene_at(#[trigger] self.stack@[p]).transparent_spec(),
                opaque || j == 0,
            decreases len - i,
        {
            active.push(self.stack[i]);
            proof {
                assert(self.stack@.subrange(j as int, i as int).push(self.stack@[i as int])
                    =~= self.stack@.subrange(j as int, i as int + 1));
            }
            i += 1;
        }
        proof {
            assert(self.stack@.subrange(j as int, len as int) =~= self.stack@.skip(j as int));
            assert(active@ == self.stack_keys().skip(j as int));
            if len > 0 {
                assert(self.update_window_at(j as int));
            }
        }
        active
    }

    /// Updates each listed scene in order, skipping unregistered keys.
    /// Every key not listed keeps its stored scene.
    fn update_scenes(&mut self, keys: &Vec<K>, context: &mut GlobalContext<K, A>)
        requires
            old(self).well_formed(),
        ensures
            final(self).well_formed(),
            final(self).stack_keys() == old(self).stack_keys(),
            final(self).scene_keys() == old(self).scene_keys(),
            forall|k: K|
                old(self).is_registered(k) && !keys@.contains(k) ==> #[trigger] final(self).scene_at(k) == old(self).scene_at(k),
    {
        let n = keys.len();
        let mut i: usize = 0;
        while i < n
            invariant
                n == keys@.len(),
                i <= n,
                self.well_formed(),
                self.stack@ == old(self).stack@,
                self.scene_keys() == old(self).scene_keys(),
                forall|k: K|
                    old(self).is_registered(k) && !keys@.contains(k) ==> #[trigger] self.scene_at(
                        k,
                    ) == old(self).scene_at(k),
            decreases n - i,
        {
            let ghost self0 = *self;
            let ghost keys0 = self.scene_keys();
            let ghost pre = self.scenes@;
            let key = keys[i];
            match find_entry(&self.scenes, key) {
                Some(si) => {
                    let e = &mut self.scenes[si];
                    e.scene.update(context);
                    proof {
                        lemma_entry_update_preserves_others(pre, self.scenes@, si as int);
                        assert(self.scene_keys() =~= keys0);
                        assert(keys@.contains(keys@[i as int]));
                        assert forall|k: K|
                            old(self).is_registered(k) && !keys@.contains(k)
                                implies #[trigger] self.scene_at(k) == old(self).scene_at(k) by {
                            assert(k != key);
                            assert(pre[si as int].key == key);
                            assert(self0.scene_at(k) == old(self).scene_at(k));
                            if entry_registered(pre, k) {
                                assert(self.scenes@[entry_index(self.scenes@, k)].scene
                                    == pre[entry_index(pre, k)].scene);
                                assert(self.scene_at(k) == self0.scene_at(k));
                            } else {
                                self0.lemma_registered_entry(k);
                                assert(self0.is_registered(k));
                            }
                        }
                    }
                },
                None => {},
            }
            i += 1;
        }
    }

    /// Applies all queued scene transitions strictly in arrival order,
    /// invoking `on_enter` and `on_exit` for the affected scenes; invalid
    /// transitions are dropped. The queue is left empty.
    pub fn process_transitions(&mut self, context: &mut GlobalContext<K, A>)
        requires
            old(self).well_formed(),
        ensures
            final(self).well_formed(),
            forall|k: K| #[trigger] final(self).is_registered(k) == old(self).is_registered(k),
            final(self).registered_set() == old(self).registered_set(),
            final(self).stack_keys() == stack_apply_all(
                old(self).stack_keys(),
                old(self).registered_set(),
                old(context).transitions@,
            ),
    {
        let ts = context.transitions.take();
        let ghost regs = old(self).registered_set();
        let n = ts.len();
        let mut i: usize = 0;
        while i < n
            invariant
                n == ts@.len(),
                i <= n,
                ts@ == old(context).transitions@,
                self.well_formed(),
                forall|k: K| #[trigger] self.is_registered(k) == old(self).is_registered(k),
                regs == old(self).registered_set(),
                self.registered_set() == regs,
                self.stack@ == stack_apply_all(old(self).stack@, regs, ts@.take(i as int)),
            decreases n - i,
        {
            let t = ts[i];
            match t {
                SceneTransition::Push(key) => self.push_internal(key, context),
                SceneTransition::Remove(key) => self.remove_internal(key, context),
                SceneTransition::Replace(old_key, new_key) => self.replace_internal(
                    old_key,
                    new_key,
                    context,
                ),
                SceneTransition::Clear => self.clear_internal(context),
                SceneTransition::Empty => {},
            }
            proof {
                lemma_stack_apply_all_snoc(old(self).stack@, regs, ts@.take(i as int), ts@[i as int]);
                assert(ts@.take(i as int).push(ts@[i as int]) =~= ts@.take(i as int + 1));
                assert(self.registered_set() =~= regs);
            }
            i += 1;
        }
        proof {
            assert(ts@.take(n as int) =~= ts@);
            assert(final(self).registered_set() =~= old(self).registered_set());
        }
    }

    /// Pushes a registered, not-yet-stacked scene onto the stack and runs
    /// its `on_enter`; otherwise drops the request.
    fn push_internal(&mut self, key: K, context: &mut GlobalContext<K, A>)
        requires
            old(self).well_formed(),
        ensures
            final(self).well_formed(),
            forall|k: K| #[trigger] final(self).is_registered(k) == old(self).is_registered(k),
            final(self).stack_keys() == stack_apply(
                old(self).stack_keys(),
                old(self).registered_set(),
                SceneTransition::Push(key),
            ),
    {
        let ghost keys0 = self.scene_keys();
        if keys_contain(&self.stack, key) {
            return ;
        }
        match find_entry(&self.scenes, key) {
            None => {
                proof {
                    if self.is_registered(key) {
                        let j = choose|j: int|
                            0 <= j < self.scene_keys().len() && self.scene_keys()[j] == key;
                        assert(self.scenes@[j].key == key);
                    }
                }
            },
            Some(si) => {
                proof {
                    assert(self.is_registered(key)) by {
                        assert(self.scene_keys()[si as int] == key);
                    }
                    let s = self.stack@;
                    assert forall|x: int| 0 <= x < s.len() implies s[x] != key by {
                        if s[x] == key {
                            assert(s.contains(key));
                        }
                    }
                }
                self.stack.push(key);
                let e = &mut self.scenes[si];
                e.scene.on_enter(context);
                proof {
                    assert(self.scene_keys() =~= keys0);
                }
            },
        }
    }

    /// Removes a stacked scene, wherever positioned, and runs its
    /// `on_exit`; an absent key is a no-op.
    fn remove_internal(&mut self, key: K, context: &mut GlobalContext<K, A>)
        requires
            old(self).well_formed(),
        ensures
            final(self).well_formed(),
            forall|k: K| #[trigger] final(self).is_registered(k) == old(self).is_registered(k),
            final(self).stack_keys() == stack_apply(
                old(self).stack_keys(),
                old(self).registered_set(),
                SceneTransition::Remove(key),
            ),
    {
        let ghost keys0 = self.scene_keys();
        let ghost s0 = self.stack@;
        match keys_index_of(&self.stack, key) {
            Some(pos) => {
                proof {
                    assert(s0.contains(key)) by {
                        assert(s0[pos as int] == key);
                    }
                    s0.index_of_first_ensures(key);
                    let fi = s0.index_of_first(key).unwrap();
                    assert(s0[fi] == key);
                    if fi < pos as int {
                        assert(s0[fi] != key);
                    }
                    if (pos as int) < fi {
                        assert(s0[pos as int] != key);
                    }
                    assert(fi == pos as int);
                }
                self.stack.remove(pos);
                proof {
                    let s1 = self.stack@;
                    s0.remove_ensures(pos as int);
                    assert(s1 =~= s0.remove_value(key));
                    assert forall|a: int, b: int| 0 <= a < b < s1.len() implies s1[a] != s1[b] by {
                        if b < pos as int {
                            assert(s1[a] == s0[a] && s1[b] == s0[b]);
                        } else if a < pos as int {
                            assert(s1[a] == s0[a] && s1[b] == s0[b + 1]);
                        } else {
                            assert(s1[a] == s0[a + 1] && s1[b] == s0[b + 1]);
                        }
                    }
                    assert forall|x: int|
                        0 <= x < s1.len() implies self.is_registered(#[trigger] s1[x]) by {
                        if x < pos as int {
                            assert(s1[x] == s0[x]);
                        } else {
                            assert(s1[x] == s0[x + 1]);
                        }
                    }
                }
                match find_entry(&self.scenes, key) {
                    Some(si) => {
                        let e = &mut self.scenes[si];
                        e.scene.on_exit(context);
                        proof {
                            assert(self.scene_keys() =~= keys0);
                        }
                    },
                    None => {},
                }
            },
            None => {},
        }
    }

    /// Replaces a stacked scene with a registered, not-yet-stacked one in
    /// place, running `on_exit` for the old scene and `on_enter` for the
    /// new; otherwise drops the request.
    fn replace_internal(&mut self, old_key: K, new_key: K, context: &mut GlobalContext<K, A>)
        requires
            old(self).well_formed(),
        ensures
            final(self).well_formed(),
            forall|k: K| #[trigger] final(self).is_registered(k) == old(self).is_registered(k),
            final(self).stack_keys() == stack_apply(
                old(self).stack_keys(),
                old(self).registered_set(),
                SceneTransition::Replace(old_key, new_key),
            ),
    {
        let ghost keys0 = self.scene_keys();
        let ghost s0 = self.stack@;
        let pos = match keys_index_of(&self.stack, old_key) {
            Some(p) => p,
            None => {
                return ;
            },
        };
        proof {
            assert(s0.contains(old_key)) by {
                assert(s0[pos as int] == old_key);
            }
        }
        if keys_contain(&self.stack, new_key) {
            return ;
        }
        let ni = match find_entry(&self.scenes, new_key) {
            Some(x) => x,
            None => {
                proof {
                    if self.is_registered(new_key) {
                        let j = choose|j: int|
                            0 <= j < self.scene_keys().len() && self.scene_keys()[j] == new_key;
                        assert(self.scenes@[j].key == new_key);
                    }
                }
                return ;
            },
        };
        proof {
            assert(self.is_registered(new_key)) by {
                assert(self.scene_keys()[ni as int] == new_key);
            }
            s0.index_of_first_ensures(old_key);
            let fi = s0.index_of_first(old_key).unwrap();
            if fi < pos as int {
                assert(s0[fi] != old_key);
            }
            if (pos as int) < fi {
                assert(s0[pos as int] != old_key);
            }
            assert(fi == pos as int);
        }
        match find_entry(&self.scenes, old_key) {
            Some(oi) => {
                let e = &mut self.scenes[oi];
                e.scene.on_exit(context);
                proof {
                    assert(self.scene_keys() =~= keys0);
                }
            },
            None => {},
        }
        let slot = &mut self.stack[pos];
        *slot = new_key;
        proof {
            let s1 = self.stack@;
            assert(s1 == s0.update(pos as int, new_key));
            assert forall|a: int, b: int| 0 <= a < b < s1.len() implies s1[a] != s1[b] by {
                if a != pos as int && b != pos as int {
                    assert(s1[a] == s0[a] && s1[b] == s0[b]);
                } else if a == pos as int {
                    assert(s1[b] == s0[b]);
                    if s1[b] == new_key {
                        assert(s0.contains(new_key));
                    }
                } else {
                    assert(s1[a] == s0[a]);
                    if s1[a] == new_key {
                        assert(s0.contains(new_key));
                    }
                }
            }
            assert forall|x: int|
                0 <= x < s1.len() implies self.is_registered(#[trigger] s1[x]) by {
                if x != pos as int {
                    assert(s1[x] == s0[x]);
                }
            }
        }
        let e = &mut self.scenes[ni];
        e.scene.on_enter(context);
        proof {
            assert(self.scene_keys() =~= keys0);
        }
    }

    /// Runs `on_exit` for every stacked scene, then empties the stack.
    fn clear_internal(&mut self, context: &mut GlobalContext<K, A>)
        requires
            old(self).well_formed(),
        ensures
            final(self).well_formed(),
            forall|k: K| #[trigger] final(self).is_registered(k) == old(self).is_registered(k),
            final(self).stack_keys() == stack_apply(
                old(self).stack_keys(),
                old(self).registered_set(),
                SceneTransition::Clear,
            ),
    {
        let n = self.stack.len();
        let mut i: usize = 0;
        while i < n
            invariant
                n == self.stack@.len(),
                i <= n,
                self.well_formed(),
                self.stack@ == old(self).stack@,
                self.scene_keys() == old(self).scene_keys(),
            decreases n - i,
        {
            let ghost keys0 = self.scene_keys();
            let key = self.stack[i];
            match find_entry(&self.scenes, key) {
                Some(si) => {
                    let e = &mut self.scenes[si];
                    e.scene.on_exit(context);
                    proof {
                        assert(self.scene_keys() =~= keys0);
                    }
                },
                None => {},
            }
            i += 1;
        }
        self.stack.clear();
    }
}

/// The update window is unique: at most one stack position starts it,
/// so the window named in [`SceneManager::update`]'s contract is fully
/// determined by the stack and the scenes' transparency.
pub proof fn lemma_update_window_unique<K: SceneKey, A: Action, T: Scene<K, A>>(
    m: SceneManager<K, A, T>,
    j1: int,
    j2: int,
)
    requires
        m.update_window_at(j1),
        m.update_window_at(j2),
    ensures
        j1 == j2,
{
    if j1 < j2 {
        assert(m.scene_at(m.stack_keys()[j2]).transparent_spec());
    }
    if j2 < j1 {
        assert(m.scene_at(m.stack_keys()[j1]).transparent_spec());
    }
}

} // verus!
