use vstd::prelude::*;

verus! {

/// No key stands twice in a list of pairs.
pub open spec fn keys_distinct<K, V>(pairs: Seq<(K, V)>) -> bool {
    forall|i: int, j: int| 0 <= i < j < pairs.len() ==> pairs[i].0 != pairs[j].0
}

/// Some pair of the list has the key.
pub open spec fn has_key<K, V>(pairs: Seq<(K, V)>, key: K) -> bool {
    exists|i: int| 0 <= i < pairs.len() && pairs[i].0 == key
}

/// The place of a pair with the key, where the list has one.
pub open spec fn place_of<K, V>(pairs: Seq<(K, V)>, key: K) -> int {
    choose|i: int| 0 <= i < pairs.len() && pairs[i].0 == key
}

/// The map that a list of pairs stands for: each key of the list, with the
/// value of a pair that holds it.
pub open spec fn as_map<K, V>(pairs: Seq<(K, V)>) -> Map<K, V> {
    Map::new(|key: K| has_key(pairs, key), |key: K| pairs[place_of(pairs, key)].1)
}

/// With distinct keys, the map gives each pair's key that pair's value.
pub proof fn lemma_pair_in_map<K, V>(pairs: Seq<(K, V)>, i: int)
    requires
        keys_distinct(pairs),
        0 <= i < pairs.len(),
    ensures
        as_map(pairs).contains_key(pairs[i].0),
        as_map(pairs)[pairs[i].0] == pairs[i].1,
{
    let key = pairs[i].0;
    assert(has_key(pairs, key));
    let j = place_of(pairs, key);
    assert(0 <= j < pairs.len() && pairs[j].0 == key);
    if j < i {
        assert(pairs[j].0 != pairs[i].0);
    } else if i < j {
        assert(pairs[i].0 != pairs[j].0);
    }
}

/// A key that no pair holds is not in the map.
pub proof fn lemma_key_not_in_map<K, V>(pairs: Seq<(K, V)>, key: K)
    requires
        forall|i: int| 0 <= i < pairs.len() ==> pairs[i].0 != key,
    ensures
        !as_map(pairs).contains_key(key),
{
}

/// Appending a pair with a new key inserts it into the map.
pub proof fn lemma_push_pair<K, V>(pairs: Seq<(K, V)>, key: K, value: V)
    requires
        keys_distinct(pairs),
        !has_key(pairs, key),
    ensures
        keys_distinct(pairs.push((key, value))),
        as_map(pairs.push((key, value))) == as_map(pairs).insert(key, value),
{
    let longer = pairs.push((key, value));
    assert forall|i: int, j: int| 0 <= i < j < longer.len() implies longer[i].0
        != longer[j].0 by {
        if j == pairs.len() {
            assert(longer[i] == pairs[i]);
            if pairs[i].0 == key {
                assert(has_key(pairs, key));
            }
        } else {
            assert(longer[i] == pairs[i] && longer[j] == pairs[j]);
        }
    }
    assert forall|k: K| as_map(longer).contains_key(k) <==> as_map(pairs).insert(
        key,
        value,
    ).contains_key(k) by {
        if has_key(longer, k) {
            let i = place_of(longer, k);
            if i < pairs.len() {
                assert(pairs[i].0 == k);
            }
        }
        if has_key(pairs, k) {
            let i = place_of(pairs, k);
            assert(longer[i].0 == k);
        }
        if k == key {
            assert(longer[pairs.len() as int].0 == k);
        }
    }
    assert forall|k: K| as_map(longer).contains_key(k) implies as_map(longer)[k] == as_map(
        pairs,
    ).insert(key, value)[k] by {
        let i = place_of(longer, k);
        lemma_pair_in_map(longer, i);
        if i < pairs.len() {
            assert(longer[i] == pairs[i]);
            lemma_pair_in_map(pairs, i);
        }
    }
    assert(as_map(longer) =~= as_map(pairs).insert(key, value));
}

/// Replacing the value of one pair replaces it in the map.
pub proof fn lemma_update_pair<K, V>(pairs: Seq<(K, V)>, i: int, value: V)
    requires
        keys_distinct(pairs),
        0 <= i < pairs.len(),
    ensures
        keys_distinct(pairs.update(i, (pairs[i].0, value))),
        as_map(pairs.update(i, (pairs[i].0, value))) == as_map(pairs).insert(pairs[i].0, value),
{
    let key = pairs[i].0;
    let changed = pairs.update(i, (key, value));
    assert forall|a: int, b: int| 0 <= a < b < changed.len() implies changed[a].0
        != changed[b].0 by {
        assert(changed[a].0 == pairs[a].0);
        assert(changed[b].0 == pairs[b].0);
    }
    assert forall|k: K| as_map(changed).contains_key(k) <==> as_map(pairs).insert(
        key,
        value,
    ).contains_key(k) by {
        if has_key(changed, k) {
            let j = place_of(changed, k);
            assert(pairs[j].0 == k);
        }
        if has_key(pairs, k) {
            let j = place_of(pairs, k);
            assert(changed[j].0 == k);
        }
        if k == key {
            assert(changed[i].0 == k);
        }
    }
    assert forall|k: K| as_map(changed).contains_key(k) implies as_map(changed)[k] == as_map(
        pairs,
    ).insert(key, value)[k] by {
        let j = place_of(changed, k);
        lemma_pair_in_map(changed, j);
        if j != i {
            assert(changed[j] == pairs[j]);
            lemma_pair_in_map(pairs, j);
        }
    }
    assert(as_map(changed) =~= as_map(pairs).insert(key, value));
}

} // verus!
