//! A sequence of entries with pairwise distinct string keys, read as a map
//! from key to entry. Both peer registries are stored this way.
use vstd::prelude::*;

verus! {

/// No two entries of `s` share a key.
pub open spec fn unique_keys<V>(s: Seq<V>, key: spec_fn(V) -> Seq<char>) -> bool {
    forall|i: int, j: int|
        0 <= i < s.len() && 0 <= j < s.len() && #[trigger] key(s[i]) == #[trigger] key(s[j]) ==> i == j
}

/// Some entry of `s` has key `k`.
pub open spec fn has_key<V>(s: Seq<V>, key: spec_fn(V) -> Seq<char>, k: Seq<char>) -> bool {
    exists|i: int| 0 <= i < s.len() && #[trigger] key(s[i]) == k
}

/// The map from each key to the entry of `s` that carries it.
pub open spec fn keyed_map<V>(s: Seq<V>, key: spec_fn(V) -> Seq<char>) -> Map<Seq<char>, V> {
    Map::new(
        |k: Seq<char>| has_key(s, key, k),
        |k: Seq<char>| s[choose|i: int| 0 <= i < s.len() && #[trigger] key(s[i]) == k],
    )
}

/// Each entry is what the map holds under its key.
pub proof fn lemma_keyed_at<V>(s: Seq<V>, key: spec_fn(V) -> Seq<char>, i: int)
    requires
        unique_keys(s, key),
        0 <= i < s.len(),
    ensures
        keyed_map(s, key).contains_key(key(s[i])),
        keyed_map(s, key)[key(s[i])] == s[i],
{
    let k = key(s[i]);
    assert(has_key(s, key, k));
    let j = choose|j: int| 0 <= j < s.len() && #[trigger] key(s[j]) == k;
    assert(i == j);
}

/// Appending an entry with a new key inserts it into the map.
pub proof fn lemma_keyed_push<V>(s: Seq<V>, key: spec_fn(V) -> Seq<char>, v: V)
    requires
        unique_keys(s, key),
        !has_key(s, key, key(v)),
    ensures
        unique_keys(s.push(v), key),
        keyed_map(s.push(v), key) == keyed_map(s, key).insert(key(v), v),
{
    let t = s.push(v);
    assert forall|i: int, j: int|
        0 <= i < t.len() && 0 <= j < t.len() && #[trigger] key(t[i]) == #[trigger] key(t[j]) implies i == j by {
        if i < s.len() && j == s.len() {
            assert(key(s[i]) == key(v));
        } else if j < s.len() && i == s.len() {
            assert(key(s[j]) == key(v));
        } else if i < s.len() && j < s.len() {
            assert(key(s[i]) == key(s[j]));
        }
    }
    let m = keyed_map(s, key).insert(key(v), v);
    assert forall|k: Seq<char>| #[trigger] has_key(t, key, k) <==> m.contains_key(k) by {
        if has_key(t, key, k) {
            let i = choose|i: int| 0 <= i < t.len() && #[trigger] key(t[i]) == k;
            if i < s.len() {
                assert(key(s[i]) == k);
            }
        }
        if has_key(s, key, k) {
            let i = choose|i: int| 0 <= i < s.len() && #[trigger] key(s[i]) == k;
            assert(key(t[i]) == k);
        }
        if k == key(v) {
            assert(key(t[s.len() as int]) == k);
        }
    }
    assert forall|k: Seq<char>| #[trigger] keyed_map(t, key).contains_key(k) implies keyed_map(t, key)[k] == m[k] by {
        let i = choose|i: int| 0 <= i < t.len() && #[trigger] key(t[i]) == k;
        lemma_keyed_at(t, key, i);
        if i < s.len() {
            assert(s[i] == t[i]);
            lemma_keyed_at(s, key, i);
        }
    }
    assert(keyed_map(t, key) =~= m);
}

/// Replacing an entry by one with the same key overwrites it in the map.
pub proof fn lemma_keyed_update<V>(s: Seq<V>, key: spec_fn(V) -> Seq<char>, i: int, v: V)
    requires
        unique_keys(s, key),
        0 <= i < s.len(),
        key(v) == key(s[i]),
    ensures
        unique_keys(s.update(i, v), key),
        keyed_map(s.update(i, v), key) == keyed_map(s, key).insert(key(v), v),
{
    let t = s.update(i, v);
    assert forall|a: int, b: int|
        0 <= a < t.len() && 0 <= b < t.len() && #[trigger] key(t[a]) == #[trigger] key(t[b]) implies a == b by {
        assert(key(t[a]) == key(s[a]));
        assert(key(t[b]) == key(s[b]));
    }
    let m = keyed_map(s, key).insert(key(v), v);
    assert forall|k: Seq<char>| #[trigger] has_key(t, key, k) <==> m.contains_key(k) by {
        if has_key(t, key, k) {
            let a = choose|a: int| 0 <= a < t.len() && #[trigger] key(t[a]) == k;
            assert(key(s[a]) == k);
        }
        if has_key(s, key, k) {
            let a = choose|a: int| 0 <= a < s.len() && #[trigger] key(s[a]) == k;
            assert(key(t[a]) == k);
        }
    }
    assert forall|k: Seq<char>| #[trigger] keyed_map(t, key).contains_key(k) implies keyed_map(t, key)[k] == m[k] by {
        let a = choose|a: int| 0 <= a < t.len() && #[trigger] key(t[a]) == k;
        lemma_keyed_at(t, key, a);
        if a != i {
            lemma_keyed_at(s, key, a);
        }
    }
    assert(keyed_map(t, key) =~= m);
}

/// Removing an entry removes its key from the map.
pub proof fn lemma_keyed_remove<V>(s: Seq<V>, key: spec_fn(V) -> Seq<char>, i: int)
    requires
        unique_keys(s, key),
        0 <= i < s.len(),
    ensures
        unique_keys(s.remove(i), key),
        keyed_map(s.remove(i), key) == keyed_map(s, key).remove(key(s[i])),
{
    let t = s.remove(i);
    let gone = key(s[i]);
    assert forall|a: int| 0 <= a < t.len() implies #[trigger] t[a] == s[if a < i { a } else { a + 1 }] by {}
    assert forall|a: int, b: int|
        0 <= a < t.len() && 0 <= b < t.len() && #[trigger] key(t[a]) == #[trigger] key(t[b]) implies a == b by {
        let a2 = if a < i { a } else { a + 1 };
        let b2 = if b < i { b } else { b + 1 };
        assert(t[a] == s[a2]);
        assert(t[b] == s[b2]);
        assert(key(s[a2]) == key(s[b2]));
    }
    let m = keyed_map(s, key).remove(gone);
    assert forall|k: Seq<char>| #[trigger] has_key(t, key, k) <==> m.contains_key(k) by {
        if has_key(t, key, k) {
            let a = choose|a: int| 0 <= a < t.len() && #[trigger] key(t[a]) == k;
            let a2 = if a < i { a } else { a + 1 };
            assert(t[a] == s[a2]);
            assert(key(s[a2]) == k);
            assert(key(s[a2]) != gone);
        }
        if has_key(s, key, k) && k != gone {
            let a = choose|a: int| 0 <= a < s.len() && #[trigger] key(s[a]) == k;
            assert(a != i);
            let a2 = if a < i { a } else { a - 1 };
            assert(t[a2] == s[a]);
            assert(key(t[a2]) == k);
        }
    }
    assert forall|k: Seq<char>| #[trigger] keyed_map(t, key).contains_key(k) implies keyed_map(t, key)[k] == m[k] by {
        let a = choose|a: int| 0 <= a < t.len() && #[trigger] key(t[a]) == k;
        lemma_keyed_at(t, key, a);
        let a2 = if a < i { a } else { a + 1 };
        assert(t[a] == s[a2]);
        lemma_keyed_at(s, key, a2);
    }
    assert(keyed_map(t, key) =~= m);
}

} // verus!
