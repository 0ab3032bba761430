//! Reasoning support for collections stored as ordered lists of
//! `(key, value)` pairs, keyed by strings.
//!
//! The stores of this crate (article lists, metadata caches, user and
//! session tables) all keep their entries in insertion order and look them
//! up by a string key.  Their specifications therefore share one abstract
//! shape: a sequence of `(Seq<char>, V)` pairs with pairwise-distinct keys.
//! This module defines that shape and proves how membership and lookup
//! behave under the operations the stores use (append, in-place update,
//! removal).

use vstd::prelude::*;

verus! {

/// The key of the entry at position `i`.
pub open spec fn key_at<V>(s: Seq<(Seq<char>, V)>, i: int) -> Seq<char> {
    s[i].0
}

/// Whether some entry carries the key `k`.
pub open spec fn has_key<V>(s: Seq<(Seq<char>, V)>, k: Seq<char>) -> bool {
    exists|i: int| 0 <= i < s.len() && key_at(s, i) == k
}

/// The position of the entry carrying `k` (meaningful when `has_key` holds
/// and the keys are distinct).
pub open spec fn key_index<V>(s: Seq<(Seq<char>, V)>, k: Seq<char>) -> int {
    choose|i: int| 0 <= i < s.len() && key_at(s, i) == k
}

/// The value stored under `k`.
pub open spec fn value_of<V>(s: Seq<(Seq<char>, V)>, k: Seq<char>) -> V {
    s[key_index(s, k)].1
}

/// All keys are pairwise distinct.
pub open spec fn keys_unique<V>(s: Seq<(Seq<char>, V)>) -> bool {
    forall|i: int, j: int|
        0 <= i < s.len() && 0 <= j < s.len() && key_at(s, i) == key_at(s, j) ==> i == j
}

/// When the keys are distinct, an entry at position `i` with key `k` is
/// the entry that lookup finds.
pub proof fn lemma_key_at_lookup<V>(s: Seq<(Seq<char>, V)>, i: int)
    requires
        keys_unique(s),
        0 <= i < s.len(),
    ensures
        has_key(s, key_at(s, i)),
        key_index(s, key_at(s, i)) == i,
        value_of(s, key_at(s, i)) == s[i].1,
{
    let k = key_at(s, i);
    assert(has_key(s, k));
    let j = key_index(s, k);
    assert(0 <= j < s.len() && key_at(s, j) == k);
}

/// Appending an entry with a fresh key keeps the keys distinct, adds that
/// key, and leaves every other binding unchanged.
pub proof fn lemma_push<V>(s: Seq<(Seq<char>, V)>, k: Seq<char>, v: V)
    requires
        keys_unique(s),
        !has_key(s, k),
    ensures
        keys_unique(s.push((k, v))),
        has_key(s.push((k, v)), k),
        value_of(s.push((k, v)), k) == v,
        forall|k2: Seq<char>|
            k2 != k ==> #[trigger] has_key(s.push((k, v)), k2) == has_key(s, k2),
        forall|k2: Seq<char>|
            k2 != k && has_key(s, k2) ==> #[trigger] value_of(s.push((k, v)), k2) == value_of(
                s,
                k2,
            ),
{
    let t = s.push((k, v));
    assert forall|i: int, j: int|
        0 <= i < t.len() && 0 <= j < t.len() && key_at(t, i) == key_at(t, j) implies i == j by {
        if i < s.len() && j < s.len() {
            assert(key_at(s, i) == key_at(s, j));
        } else if i < s.len() && j == s.len() {
            assert(has_key(s, key_at(s, i)));
        } else if j < s.len() && i == s.len() {
            assert(has_key(s, key_at(s, j)));
        }
    }
    assert(key_at(t, s.len() as int) == k);
    lemma_key_at_lookup(t, s.len() as int);
    assert forall|k2: Seq<char>| k2 != k implies #[trigger] has_key(t, k2) == has_key(s, k2) by {
        if has_key(t, k2) {
            let i = choose|i: int| 0 <= i < t.len() && key_at(t, i) == k2;
            assert(i < s.len());
            assert(key_at(s, i) == k2);
        }
        if has_key(s, k2) {
            let i = choose|i: int| 0 <= i < s.len() && key_at(s, i) == k2;
            assert(key_at(t, i) == k2);
        }
    }
    assert forall|k2: Seq<char>| k2 != k && has_key(s, k2) implies #[trigger] value_of(t, k2)
        == value_of(s, k2) by {
        let i = key_index(s, k2);
        assert(0 <= i < s.len() && key_at(s, i) == k2);
        assert(key_at(t, i) == k2);
        lemma_key_at_lookup(t, i);
        lemma_key_at_lookup(s, i);
    }
}

/// Overwriting the entry that carries `k` (in place) keeps the keys
/// distinct, rebinds `k`, and leaves every other binding unchanged.
pub proof fn lemma_update<V>(s: Seq<(Seq<char>, V)>, k: Seq<char>, v: V)
    requires
        keys_unique(s),
        has_key(s, k),
    ensures
        keys_unique(s.update(key_index(s, k), (k, v))),
        s.update(key_index(s, k), (k, v)).len() == s.len(),
        has_key(s.update(key_index(s, k), (k, v)), k),
        value_of(s.update(key_index(s, k), (k, v)), k) == v,
        forall|k2: Seq<char>|
            k2 != k ==> #[trigger] has_key(s.update(key_index(s, k), (k, v)), k2) == has_key(
                s,
                k2,
            ),
        forall|k2: Seq<char>|
            k2 != k && has_key(s, k2) ==> #[trigger] value_of(
                s.update(key_index(s, k), (k, v)),
                k2,
            ) == value_of(s, k2),
{
    let n = key_index(s, k);
    assert(0 <= n < s.len() && key_at(s, n) == k);
    let t = s.update(n, (k, v));
    assert(forall|i: int| 0 <= i < t.len() && i != n ==> key_at(t, i) == key_at(s, i));
    assert(key_at(t, n) == k);
    assert forall|i: int, j: int|
        0 <= i < t.len() && 0 <= j < t.len() && key_at(t, i) == key_at(t, j) implies i == j by {
        assert(key_at(s, i) == key_at(t, i));
        assert(key_at(s, j) == key_at(t, j));
    }
    lemma_key_at_lookup(t, n);
    assert forall|k2: Seq<char>| k2 != k implies #[trigger] has_key(t, k2) == has_key(s, k2) by {
        if has_key(t, k2) {
            let i = choose|i: int| 0 <= i < t.len() && key_at(t, i) == k2;
            assert(i != n);
            assert(key_at(s, i) == k2);
        }
        if has_key(s, k2) {
            let i = choose|i: int| 0 <= i < s.len() && key_at(s, i) == k2;
            assert(i != n);
            assert(key_at(t, i) == k2);
        }
    }
    assert forall|k2: Seq<char>| k2 != k && has_key(s, k2) implies #[trigger] value_of(t, k2)
        == value_of(s, k2) by {
        let i = key_index(s, k2);
        assert(0 <= i < s.len() && key_at(s, i) == k2);
        assert(i != n);
        assert(key_at(t, i) == k2);
        lemma_key_at_lookup(t, i);
        lemma_key_at_lookup(s, i);
    }
}

/// Removing the entry that carries `k` keeps the keys distinct, drops that
/// key, and leaves every other binding unchanged.
pub proof fn lemma_remove<V>(s: Seq<(Seq<char>, V)>, k: Seq<char>)
    requires
        keys_unique(s),
        has_key(s, k),
    ensures
        keys_unique(s.remove(key_index(s, k))),
        s.remove(key_index(s, k)).len() == s.len() - 1,
        !has_key(s.remove(key_index(s, k)), k),
        forall|k2: Seq<char>|
            k2 != k ==> #[trigger] has_key(s.remove(key_index(s, k)), k2) == has_key(s, k2),
        forall|k2: Seq<char>|
            k2 != k && has_key(s, k2) ==> #[trigger] value_of(s.remove(key_index(s, k)), k2)
                == value_of(s, k2),
{
    let n = key_index(s, k);
    assert(0 <= n < s.len() && key_at(s, n) == k);
    let t = s.remove(n);
    // Entry i of t is entry i of s for i < n, and entry i + 1 of s after.
    assert(forall|i: int| 0 <= i < n ==> key_at(t, i) == key_at(s, i));
    assert(forall|i: int| n <= i < t.len() ==> key_at(t, i) == key_at(s, i + 1));
    assert forall|i: int, j: int|
        0 <= i < t.len() && 0 <= j < t.len() && key_at(t, i) == key_at(t, j) implies i == j by {
        let i0 = if i < n { i } else { i + 1 };
        let j0 = if j < n { j } else { j + 1 };
        assert(key_at(s, i0) == key_at(t, i));
        assert(key_at(s, j0) == key_at(t, j));
    }
    assert forall|i: int| 0 <= i < t.len() implies key_at(t, i) != k by {
        let i0 = if i < n { i } else { i + 1 };
        assert(key_at(s, i0) == key_at(t, i));
        assert(i0 != n);
    }
    assert forall|k2: Seq<char>| k2 != k implies #[trigger] has_key(t, k2) == has_key(s, k2) by {
        if has_key(t, k2) {
            let i = choose|i: int| 0 <= i < t.len() && key_at(t, i) == k2;
            let i0 = if i < n { i } else { i + 1 };
            assert(key_at(s, i0) == k2);
        }
        if has_key(s, k2) {
            let i = choose|i: int| 0 <= i < s.len() && key_at(s, i) == k2;
            assert(i != n);
            let i1 = if i < n { i } else { i - 1 };
            assert(key_at(t, i1) == k2);
        }
    }
    assert forall|k2: Seq<char>| k2 != k && has_key(s, k2) implies #[trigger] value_of(t, k2)
        == value_of(s, k2) by {
        let i = key_index(s, k2);
        assert(0 <= i < s.len() && key_at(s, i) == k2);
        assert(i != n);
        let i1 = if i < n { i } else { i - 1 };
        assert(key_at(t, i1) == k2);
        assert(t[i1].1 == s[i].1);
        lemma_key_at_lookup(t, i1);
        lemma_key_at_lookup(s, i);
    }
}

/// Bind `k` to `v`: overwrite the entry carrying `k` in place if one
/// exists, append a new entry otherwise.
pub open spec fn insert_pair<V>(s: Seq<(Seq<char>, V)>, k: Seq<char>, v: V) -> Seq<
    (Seq<char>, V),
> {
    if has_key(s, k) {
        s.update(key_index(s, k), (k, v))
    } else {
        s.push((k, v))
    }
}

/// Drop the entry carrying `k`, if one exists.
pub open spec fn remove_pair<V>(s: Seq<(Seq<char>, V)>, k: Seq<char>) -> Seq<(Seq<char>, V)> {
    if has_key(s, k) {
        s.remove(key_index(s, k))
    } else {
        s
    }
}

/// How `insert_pair` changes membership and lookup.
pub proof fn lemma_insert_pair<V>(s: Seq<(Seq<char>, V)>, k: Seq<char>, v: V)
    requires
        keys_unique(s),
    ensures
        keys_unique(insert_pair(s, k, v)),
        has_key(insert_pair(s, k, v), k),
        value_of(insert_pair(s, k, v), k) == v,
        forall|k2: Seq<char>|
            k2 != k ==> #[trigger] has_key(insert_pair(s, k, v), k2) == has_key(s, k2),
        forall|k2: Seq<char>|
            k2 != k && has_key(s, k2) ==> #[trigger] value_of(insert_pair(s, k, v), k2)
                == value_of(s, k2),
        insert_pair(s, k, v).len() == if has_key(s, k) {
            s.len()
        } else {
            s.len() + 1
        },
{
    if has_key(s, k) {
        lemma_update(s, k, v);
    } else {
        lemma_push(s, k, v);
    }
}

/// How `remove_pair` changes membership and lookup.
pub proof fn lemma_remove_pair<V>(s: Seq<(Seq<char>, V)>, k: Seq<char>)
    requires
        keys_unique(s),
    ensures
        keys_unique(remove_pair(s, k)),
        !has_key(remove_pair(s, k), k),
        forall|k2: Seq<char>|
            k2 != k ==> #[trigger] has_key(remove_pair(s, k), k2) == has_key(s, k2),
        forall|k2: Seq<char>|
            k2 != k && has_key(s, k2) ==> #[trigger] value_of(remove_pair(s, k), k2) == value_of(
                s,
                k2,
            ),
        remove_pair(s, k).len() == if has_key(s, k) {
            s.len() - 1
        } else {
            s.len() as int
        },
{
    if has_key(s, k) {
        lemma_remove(s, k);
    }
}

/// Relies on `<str as PartialEq>::eq` from std: string slice equality is
/// equality of the character sequences.
pub assume_specification[ <str as PartialEq<str>>::eq ](x: &str, y: &str) -> (r: bool)
    ensures
        r == (x@ == y@),
;

/// String slice comparison, tied to the view of the slices.
pub fn str_eq(a: &str, b: &str) -> (r: bool)
    ensures
        r == (a@ == b@),
{
    *a == *b
}

} // verus!
