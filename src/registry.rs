use vstd::prelude::*;

verus! {

/// Whether no two entries of `s` share a key.
pub open spec fn keys_unique<T, K>(s: Seq<T>, key: spec_fn(T) -> K) -> bool {
    forall|i: int, j: int| 0 <= i < s.len() && 0 <= j < s.len() && i != j ==> key(s[i]) != key(s[j])
}

/// Whether an entry of `s` has key `k`.
pub open spec fn has_key<T, K>(s: Seq<T>, key: spec_fn(T) -> K, k: K) -> bool {
    exists|i: int| 0 <= i < s.len() && key(s[i]) == k
}

/// The entry of `s` with key `k`.
pub open spec fn entry_with_key<T, K>(s: Seq<T>, key: spec_fn(T) -> K, k: K) -> Option<T> {
    if has_key(s, key, k) {
        Some(s[choose|i: int| 0 <= i < s.len() && key(s[i]) == k])
    } else {
        None
    }
}

/// The entries of `s` by key.
pub open spec fn keyed_map<T, K>(s: Seq<T>, key: spec_fn(T) -> K) -> Map<K, T> {
    Map::new(|k: K| has_key(s, key, k), |k: K| entry_with_key(s, key, k)->0)
}

/// In a sequence with unique keys, the entry with the key of `s[i]` is `s[i]`.
pub proof fn lemma_entry_at<T, K>(s: Seq<T>, key: spec_fn(T) -> K, i: int)
    requires
        keys_unique(s, key),
        0 <= i < s.len(),
    ensures
        has_key(s, key, key(s[i])),
        entry_with_key(s, key, key(s[i])) == Some(s[i]),
{
    assert(key(s[i]) == key(s[i]));
    let j = choose|j: int| 0 <= j < s.len() && key(s[j]) == key(s[i]);
    assert(j == i);
}

/// Replacing the entry at `i` by one with the same key keeps keys unique and
/// replaces that key's entry in the map.
pub proof fn lemma_replace<T, K>(s: Seq<T>, key: spec_fn(T) -> K, i: int, v: T)
    requires
        keys_unique(s, key),
        0 <= i < s.len(),
        key(s[i]) == key(v),
    ensures
        keys_unique(s.update(i, v), key),
        keyed_map(s.update(i, v), key) == keyed_map(s, key).insert(key(v), v),
{
    let t = s.update(i, v);
    assert(keys_unique(t, key)) by {
        assert forall|a: int, b: int|
            0 <= a < t.len() && 0 <= b < t.len() && a != b implies key(t[a]) != key(t[b]) by {
            assert(key(t[a]) == key(s[a]));
            assert(key(t[b]) == key(s[b]));
        }
    }
    assert forall|k: K| has_key(t, key, k) == has_key(s, key, k) by {
        if has_key(s, key, k) {
            let j = choose|j: int| 0 <= j < s.len() && key(s[j]) == k;
            assert(key(t[j]) == k);
        }
        if has_key(t, key, k) {
            let j = choose|j: int| 0 <= j < t.len() && key(t[j]) == k;
            assert(key(s[j]) == k);
        }
    }
    assert forall|k: K| has_key(s, key, k) && k != key(v) implies entry_with_key(t, key, k)
        == entry_with_key(s, key, k) by {
        let j = choose|j: int| 0 <= j < s.len() && key(s[j]) == k;
        lemma_entry_at(s, key, j);
        assert(j != i);
        assert(t[j] == s[j]);
        lemma_entry_at(t, key, j);
    }
    lemma_entry_at(t, key, i);
    assert(keyed_map(t, key) =~= keyed_map(s, key).insert(key(v), v));
}

/// Appending an entry with a new key keeps keys unique and adds that key to
/// the map.
pub proof fn lemma_append<T, K>(s: Seq<T>, key: spec_fn(T) -> K, v: T)
    requires
        keys_unique(s, key),
        !has_key(s, key, key(v)),
    ensures
        keys_unique(s.push(v), key),
        keyed_map(s.push(v), key) == keyed_map(s, key).insert(key(v), v),
{
    let t = s.push(v);
    assert(keys_unique(t, key)) by {
        assert forall|a: int, b: int|
            0 <= a < t.len() && 0 <= b < t.len() && a != b implies key(t[a]) != key(t[b]) by {
            if a < s.len() && b < s.len() {
                assert(t[a] == s[a] && t[b] == s[b]);
            } else if a < s.len() {
                assert(t[a] == s[a]);
            } else {
                assert(t[b] == s[b]);
            }
        }
    }
    assert forall|k: K| k != key(v) implies has_key(t, key, k) == has_key(s, key, k) by {
        if has_key(s, key, k) {
            let j = choose|j: int| 0 <= j < s.len() && key(s[j]) == k;
            assert(t[j] == s[j]);
        }
        if has_key(t, key, k) {
            let j = choose|j: int| 0 <= j < t.len() && key(t[j]) == k;
            assert(j < s.len());
            assert(t[j] == s[j]);
        }
    }
    assert forall|k: K| has_key(s, key, k) implies entry_with_key(t, key, k)
        == entry_with_key(s, key, k) by {
        let j = choose|j: int| 0 <= j < s.len() && key(s[j]) == k;
        lemma_entry_at(s, key, j);
        assert(t[j] == s[j]);
        lemma_entry_at(t, key, j);
    }
    lemma_entry_at(t, key, s.len() as int);
    assert(keyed_map(t, key) =~= keyed_map(s, key).insert(key(v), v));
}

/// Removing the entry at `i` keeps keys unique and removes that key from the
/// map.
pub proof fn lemma_remove<T, K>(s: Seq<T>, key: spec_fn(T) -> K, i: int)
    requires
        keys_unique(s, key),
        0 <= i < s.len(),
    ensures
        keys_unique(s.remove(i), key),
        keyed_map(s.remove(i), key) == keyed_map(s, key).remove(key(s[i])),
{
    let t = s.remove(i);
    assert forall|a: int| 0 <= a < t.len() implies t[a] == s[if a < i { a } else { a + 1 }] by {}
    assert(keys_unique(t, key)) by {
        assert forall|a: int, b: int|
            0 <= a < t.len() && 0 <= b < t.len() && a != b implies key(t[a]) != key(t[b]) by {
            assert(t[a] == s[if a < i { a } else { a + 1 }]);
            assert(t[b] == s[if b < i { b } else { b + 1 }]);
        }
    }
    assert forall|k: K| k != key(s[i]) implies has_key(t, key, k) == has_key(s, key, k) by {
        if has_key(s, key, k) {
            let j = choose|j: int| 0 <= j < s.len() && key(s[j]) == k;
            assert(j != i);
            let a = if j < i { j } else { j - 1 };
            assert(t[a] == s[j]);
        }
        if has_key(t, key, k) {
            let a = choose|a: int| 0 <= a < t.len() && key(t[a]) == k;
            assert(t[a] == s[if a < i { a } else { a + 1 }]);
        }
    }
    assert(!has_key(t, key, key(s[i]))) by {
        if has_key(t, key, key(s[i])) {
            let a = choose|a: int| 0 <= a < t.len() && key(t[a]) == key(s[i]);
            assert(t[a] == s[if a < i { a } else { a + 1 }]);
        }
    }
    assert forall|k: K| has_key(t, key, k) implies entry_with_key(t, key, k)
        == entry_with_key(s, key, k) by {
        let a = choose|a: int| 0 <= a < t.len() && key(t[a]) == k;
        let j = if a < i { a } else { a + 1 };
        assert(t[a] == s[j]);
        lemma_entry_at(s, key, j);
        lemma_entry_at(t, key, a);
    }
    assert(keyed_map(t, key) =~= keyed_map(s, key).remove(key(s[i])));
}

} // verus!
