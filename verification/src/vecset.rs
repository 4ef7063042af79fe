//! Small vector-backed sets.
//!
//! The per-tick input state needs sets of keys and buttons with insert-if-
//! absent and remove-if-present semantics. A duplicate-free vector keeps
//! those operations simple to state: each helper says exactly how the set
//! of contained elements changes.

use vstd::prelude::*;

verus! {

/// Relies on std's `Vec::capacity`: the allocated capacity of a vector is
/// at least its length.
#[verifier::external_body]
pub(crate) fn vec_capacity<T>(v: &Vec<T>) -> (c: usize)
    ensures
        c >= v@.len(),
{
    v.capacity()
}

/// An element of a vector-backed set: a copyable value with an equality
/// test that agrees with logical equality.
pub trait SetElem: Sized + Copy {
    /// Decides equality of two elements.
    fn same(&self, other: &Self) -> (r: bool)
        ensures
            r == (self == other),
    ;
}

impl SetElem for crate::input::event::KeyCode {
    fn same(&self, other: &Self) -> (r: bool)
        ensures
            r == (self == other),
    {
        *self == *other
    }
}

impl SetElem for crate::input::event::MouseButton {
    fn same(&self, other: &Self) -> (r: bool)
        ensures
            r == (self == other),
    {
        *self == *other
    }
}

/// Returns true if the vector contains the element.
pub(crate) fn set_contains<T: SetElem>(v: &Vec<T>, x: T) -> (r: bool)
    ensures
        r == v@.contains(x),
{
    let n = v.len();
    let mut i: usize = 0;
    while i < n
        invariant
            n == v@.len(),
            i <= n,
            forall|j: int| 0 <= j < i ==> v@[j] != x,
        decreases n - i,
    {
        if v[i].same(&x) {
            proof {
                assert(v@.contains(x));
            }
            return true;
        }
        i += 1;
    }
    false
}

/// Inserts the element if it is absent; returns true exactly when the
/// element was newly added.
pub(crate) fn set_insert<T: SetElem>(v: &mut Vec<T>, x: T) -> (r: bool)
    requires
        old(v)@.no_duplicates(),
    ensures
        final(v)@.no_duplicates(),
        r == !old(v)@.contains(x),
        final(v)@.to_set() == old(v)@.to_set().insert(x),
        final(v)@ == (if old(v)@.contains(x) {
            old(v)@
        } else {
            old(v)@.push(x)
        }),
{
    if set_contains(v, x) {
        proof {
            assert(v@.to_set().insert(x) =~= v@.to_set());
        }
        false
    } else {
        proof {
            let s = v@;
            assert forall|i: int| 0 <= i < s.len() implies s[i] != x by {
                if s[i] == x {
                    assert(s.contains(x));
                }
            }
        }
        v.push(x);
        proof {
            let s = old(v)@;
            let t = v@;
            assert forall|y: T| t.contains(y) implies (s.contains(y) || y == x) by {
                let j = choose|j: int| 0 <= j < t.len() && t[j] == y;
                if j < s.len() {
                    assert(s[j] == y);
                    assert(s.contains(y));
                }
            }
            assert forall|y: T| s.contains(y) implies t.contains(y) by {
                let j = choose|j: int| 0 <= j < s.len() && s[j] == y;
                assert(t[j] == y);
                assert(t.contains(y));
            }
            assert(t[s.len() as int] == x);
            assert(t.contains(x));
            assert(t.to_set() =~= s.to_set().insert(x));
        }
        true
    }
}

/// Removes the element if it is present; returns true exactly when the
/// element was present.
pub(crate) fn set_remove<T: SetElem>(v: &mut Vec<T>, x: T) -> (r: bool)
    requires
        old(v)@.no_duplicates(),
    ensures
        final(v)@.no_duplicates(),
        r == old(v)@.contains(x),
        final(v)@.to_set() == old(v)@.to_set().remove(x),
        forall|y: T| final(v)@.contains(y) <==> (old(v)@.contains(y) && y != x),
{
    let n = v.len();
    let mut i: usize = 0;
    while i < n
        invariant
            n == v@.len(),
            i <= n,
            v@ == old(v)@,
            old(v)@.no_duplicates(),
            forall|j: int| 0 <= j < i ==> v@[j] != x,
        decreases n - i,
    {
        if v[i].same(&x) {
            let ghost s = v@;
            let ghost ii = i as int;
            v.remove(i);
            proof {
                s.remove_ensures(ii);
                let t = v@;
                assert(s.contains(x));
                assert forall|y: T| t.contains(y) implies (s.contains(y) && y != x) by {
                    let j = choose|j: int| 0 <= j < t.len() && t[j] == y;
                    if j < ii {
                        assert(s[j] == y);
                        assert(s.contains(y));
                        assert(s[j] != s[ii]);
                    } else {
                        assert(s[j + 1] == y);
                        assert(s.contains(y));
                        assert(s[j + 1] != s[ii]);
                    }
                }
                assert forall|y: T| (s.contains(y) && y != x) implies t.contains(y) by {
                    let j = choose|j: int| 0 <= j < s.len() && s[j] == y;
                    assert(j != ii);
                    if j < ii {
                        assert(t[j] == y);
                        assert(t.contains(y));
                    } else {
                        assert(t[j - 1] == s[j]);
                        assert(t.contains(y));
                    }
                }
                assert forall|a: int, b: int| 0 <= a < b < t.len() implies t[a] != t[b] by {
                    if b < ii {
                        assert(t[a] == s[a] && t[b] == s[b]);
                    } else if a < ii {
                        assert(t[a] == s[a] && t[b] == s[b + 1]);
                    } else {
                        assert(t[a] == s[a + 1] && t[b] == s[b + 1]);
                    }
                }
                assert(t.no_duplicates());
                assert(t.to_set() =~= s.to_set().remove(x));
            }
            return true;
        }
        i += 1;
    }
    proof {
        assert(v@.to_set().remove(x) =~= v@.to_set());
    }
    false
}

} // verus!

