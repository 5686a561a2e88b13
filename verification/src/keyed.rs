//! Sequences whose elements carry distinct keys, read as maps.

use vstd::prelude::*;

verus! {

/// The map from each key to the last element that carries it.
pub open spec fn keyed_map<K, V>(s: Seq<V>, key: spec_fn(V) -> K) -> Map<K, V>
    decreases s.len(),
{
    if s.len() == 0 {
        Map::empty()
    } else {
        keyed_map(s.drop_last(), key).insert(key(s.last()), s.last())
    }
}

/// No two elements carry the same key.
pub open spec fn unique_keys<K, V>(s: Seq<V>, key: spec_fn(V) -> K) -> bool {
    forall|i: int, j: int| 0 <= i < s.len() && 0 <= j < s.len() && i != j ==> key(s[i]) != key(s[j])
}

/// The keys of the elements, in order.
pub open spec fn keys_of<K, V>(s: Seq<V>, key: spec_fn(V) -> K) -> Seq<K> {
    Seq::new(s.len(), |i: int| key(s[i]))
}

pub proof fn lemma_keyed_map_domain<K, V>(s: Seq<V>, key: spec_fn(V) -> K, k: K)
    ensures
        keyed_map(s, key).contains_key(k) <==> exists|i: int| 0 <= i < s.len() && key(s[i]) == k,
    decreases s.len(),
{
    if s.len() > 0 {
        lemma_keyed_map_domain(s.drop_last(), key, k);
        if keyed_map(s, key).contains_key(k) {
            if key(s.last()) == k {
                assert(key(s[s.len() - 1]) == k);
            } else {
                let i = choose|i: int| 0 <= i < s.drop_last().len() && key(s.drop_last()[i]) == k;
                assert(key(s[i]) == k);
            }
        }
        if exists|i: int| 0 <= i < s.len() && key(s[i]) == k {
            let i = choose|i: int| 0 <= i < s.len() && key(s[i]) == k;
            if i < s.len() - 1 {
                assert(key(s.drop_last()[i]) == k);
            }
        }
    }
}

pub proof fn lemma_keyed_map_value<K, V>(s: Seq<V>, key: spec_fn(V) -> K, i: int)
    requires
        unique_keys(s, key),
        0 <= i < s.len(),
    ensures
        keyed_map(s, key).contains_key(key(s[i])),
        keyed_map(s, key)[key(s[i])] == s[i],
    decreases s.len(),
{
    if i < s.len() - 1 {
        assert(unique_keys(s.drop_last(), key));
        assert(s.drop_last()[i] == s[i]);
        lemma_keyed_map_value(s.drop_last(), key, i);
        assert(key(s.last()) != key(s[i]));
    }
}

pub proof fn lemma_keyed_map_update<K, V>(s: Seq<V>, key: spec_fn(V) -> K, i: int, v: V)
    requires
        unique_keys(s, key),
        0 <= i < s.len(),
        key(s[i]) == key(v),
    ensures
        keyed_map(s.update(i, v), key) == keyed_map(s, key).insert(key(v), v),
        unique_keys(s.update(i, v), key),
    decreases s.len(),
{
    let t = s.update(i, v);
    if i == s.len() - 1 {
        assert(t.drop_last() =~= s.drop_last());
        assert(keyed_map(t, key) =~= keyed_map(s, key).insert(key(v), v));
    } else {
        assert(t.drop_last() =~= s.drop_last().update(i, v));
        assert(unique_keys(s.drop_last(), key));
        lemma_keyed_map_update(s.drop_last(), key, i, v);
        assert(key(s.last()) != key(s[i]));
        assert(keyed_map(t, key) =~= keyed_map(s, key).insert(key(v), v));
    }
    assert forall|a: int, b: int| 0 <= a < t.len() && 0 <= b < t.len() && a != b
        implies key(t[a]) != key(t[b]) by {
    }
}

pub proof fn lemma_keyed_push_unique<K, V>(s: Seq<V>, key: spec_fn(V) -> K, v: V)
    requires
        unique_keys(s, key),
        forall|i: int| 0 <= i < s.len() ==> key(s[i]) != key(v),
    ensures
        unique_keys(s.push(v), key),
        keyed_map(s.push(v), key) == keyed_map(s, key).insert(key(v), v),
{
    assert(s.push(v).drop_last() =~= s);
}

} // verus!
