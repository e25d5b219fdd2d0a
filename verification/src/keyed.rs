//! Tables whose rows are found by a key: how a sequence of rows with distinct
//! keys is read as a map.

use vstd::prelude::*;

verus! {

/// The map from each key to the value that stands at the key's position.
pub open spec fn keyed_map<K, V>(keys: Seq<K>, values: Seq<V>) -> Map<K, V> {
    Map::new(|k: K| keys.contains(k), |k: K| values[keys.index_of(k)])
}

/// A row is found under its key.
pub proof fn lemma_keyed_lookup<K, V>(keys: Seq<K>, values: Seq<V>, i: int)
    requires
        keys.no_duplicates(),
        0 <= i < keys.len(),
    ensures
        keyed_map(keys, values).contains_key(keys[i]),
        keyed_map(keys, values)[keys[i]] == values[i],
{
    assert(keys.contains(keys[i]));
}

/// A row added under a new key is an insertion.
pub proof fn lemma_keyed_push<K, V>(keys: Seq<K>, values: Seq<V>, key: K, value: V)
    requires
        keys.no_duplicates(),
        keys.len() == values.len(),
        !keys.contains(key),
    ensures
        keys.push(key).no_duplicates(),
        keyed_map(keys.push(key), values.push(value)) == keyed_map(keys, values).insert(key, value),
{
    let keys2 = keys.push(key);
    let values2 = values.push(value);
    assert forall|i: int, j: int|
        0 <= i < keys2.len() && 0 <= j < keys2.len() && i != j implies keys2[i] != keys2[j] by {
        if i < keys.len() {
            assert(keys2[i] == keys[i]);
        }
        if j < keys.len() {
            assert(keys2[j] == keys[j]);
        }
    }
    assert forall|k: K| keys2.contains(k) <==> keys.contains(k) || k == key by {
        if keys2.contains(k) {
            let i = choose|i: int| 0 <= i < keys2.len() && keys2[i] == k;
            if i < keys.len() {
                assert(keys[i] == k);
            }
        }
        if keys.contains(k) {
            let i = choose|i: int| 0 <= i < keys.len() && keys[i] == k;
            assert(keys2[i] == k);
        }
        if k == key {
            assert(keys2[keys.len() as int] == k);
        }
    }
    assert forall|k: K| keys2.contains(k) implies #[trigger] keyed_map(keys2, values2)[k]
        == keyed_map(keys, values).insert(key, value)[k] by {
        let i = keys2.index_of(k);
        if k == key {
            if i < keys.len() {
                assert(keys[i] == k);
            }
        } else {
            assert(keys[i] == k);
            lemma_keyed_lookup(keys, values, i);
        }
    }
    assert(keyed_map(keys2, values2) =~= keyed_map(keys, values).insert(key, value));
}

/// A value replaced in place is an insertion under the row's key.
pub proof fn lemma_keyed_update<K, V>(keys: Seq<K>, values: Seq<V>, i: int, value: V)
    requires
        keys.no_duplicates(),
        keys.len() == values.len(),
        0 <= i < keys.len(),
    ensures
        keyed_map(keys, values.update(i, value)) == keyed_map(keys, values).insert(keys[i], value),
{
    let values2 = values.update(i, value);
    assert(keys.contains(keys[i]));
    assert forall|k: K| keys.contains(k) implies #[trigger] keyed_map(keys, values2)[k]
        == keyed_map(keys, values).insert(keys[i], value)[k] by {
        let j = keys.index_of(k);
        if k == keys[i] {
            assert(j == i);
        }
    }
    assert(keyed_map(keys, values2) =~= keyed_map(keys, values).insert(keys[i], value));
}

/// A row taken out is a removal of its key.
pub proof fn lemma_keyed_remove<K, V>(keys: Seq<K>, values: Seq<V>, i: int)
    requires
        keys.no_duplicates(),
        keys.len() == values.len(),
        0 <= i < keys.len(),
    ensures
        keys.remove(i).no_duplicates(),
        keyed_map(keys.remove(i), values.remove(i)) == keyed_map(keys, values).remove(keys[i]),
{
    let keys2 = keys.remove(i);
    let values2 = values.remove(i);
    assert forall|a: int, b: int|
        0 <= a < keys2.len() && 0 <= b < keys2.len() && a != b implies keys2[a] != keys2[b] by {
        let a0 = if a < i { a } else { a + 1 };
        let b0 = if b < i { b } else { b + 1 };
        assert(keys2[a] == keys[a0]);
        assert(keys2[b] == keys[b0]);
    }
    assert forall|k: K| keys2.contains(k) <==> keys.contains(k) && k != keys[i] by {
        if keys2.contains(k) {
            let a = choose|a: int| 0 <= a < keys2.len() && keys2[a] == k;
            let a0 = if a < i { a } else { a + 1 };
            assert(keys2[a] == keys[a0]);
        }
        if keys.contains(k) && k != keys[i] {
            let b = choose|b: int| 0 <= b < keys.len() && keys[b] == k;
            let a = if b < i { b } else { b - 1 };
            assert(keys2[a] == keys[b]);
        }
    }
    assert forall|k: K| keys2.contains(k) implies #[trigger] keyed_map(keys2, values2)[k]
        == keyed_map(keys, values).remove(keys[i])[k] by {
        let a = keys2.index_of(k);
        let a0 = if a < i { a } else { a + 1 };
        assert(keys2[a] == keys[a0]);
        assert(values2[a] == values[a0]);
        lemma_keyed_lookup(keys, values, a0);
    }
    assert(keyed_map(keys2, values2) =~= keyed_map(keys, values).remove(keys[i]));
}

} // verus!
