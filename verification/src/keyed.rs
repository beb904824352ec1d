//! A keyed view of a sequence of records: the map from each record's key
//! to the record.  The stores keep their records in a vector whose keys
//! are pairwise distinct and state their contracts over this map.

use vstd::prelude::*;

verus! {

/// The map a sequence of records denotes, each keyed by `key`; a later
/// record wins over an earlier one with the same key.
pub open spec fn keyed_map<K, T>(s: Seq<T>, key: spec_fn(T) -> K) -> Map<K, T>
    decreases s.len(),
{
    if s.len() == 0 {
        Map::empty()
    } else {
        keyed_map(s.drop_last(), key).insert(key(s.last()), s.last())
    }
}

/// Whether no two records of the sequence share a key.
pub open spec fn distinct_keys<K, T>(s: Seq<T>, key: spec_fn(T) -> K) -> bool {
    forall|i: int, j: int| 0 <= i < j < s.len() ==> key(s[i]) != key(s[j])
}

/// Every record's key is in the keyed map.
pub proof fn lemma_keyed_map_contains<K, T>(s: Seq<T>, key: spec_fn(T) -> K, i: int)
    requires
        0 <= i < s.len(),
    ensures
        keyed_map(s, key).contains_key(key(s[i])),
    decreases s.len(),
{
    if i < s.len() - 1 {
        lemma_keyed_map_contains(s.drop_last(), key, i);
        assert(s.drop_last()[i] == s[i]);
    }
}

/// A key no record carries is not in the keyed map.
pub proof fn lemma_keyed_map_absent<K, T>(s: Seq<T>, key: spec_fn(T) -> K, k: K)
    requires
        forall|i: int| 0 <= i < s.len() ==> key(#[trigger] s[i]) != k,
    ensures
        !keyed_map(s, key).contains_key(k),
    decreases s.len(),
{
    if s.len() > 0 {
        lemma_keyed_map_absent(s.drop_last(), key, k);
    }
}

/// With distinct keys, the keyed map sends each record's key to that
/// record.
pub proof fn lemma_keyed_map_index<K, T>(s: Seq<T>, key: spec_fn(T) -> K, i: int)
    requires
        distinct_keys(s, key),
        0 <= i < s.len(),
    ensures
        keyed_map(s, key).contains_key(key(s[i])),
        keyed_map(s, key)[key(s[i])] == s[i],
    decreases s.len(),
{
    lemma_keyed_map_contains(s, key, i);
    if i < s.len() - 1 {
        assert(distinct_keys(s.drop_last(), key)) by {
            assert(forall|a: int, b: int|
                0 <= a < b < s.drop_last().len() ==> s.drop_last()[a] == s[a] && s.drop_last()[b]
                    == s[b]);
        }
        lemma_keyed_map_index(s.drop_last(), key, i);
        assert(s.drop_last()[i] == s[i]);
        assert(key(s[i]) != key(s.last()));
    }
}

/// Appending a record inserts it into the keyed map.
pub proof fn lemma_keyed_map_push<K, T>(s: Seq<T>, key: spec_fn(T) -> K, x: T)
    ensures
        keyed_map(s.push(x), key) == keyed_map(s, key).insert(key(x), x),
{
    assert(s.push(x).drop_last() =~= s);
    assert(s.push(x).last() == x);
}

/// Replacing the record at a key's position updates the keyed map at that
/// key.
pub proof fn lemma_keyed_map_update<K, T>(s: Seq<T>, key: spec_fn(T) -> K, i: int, x: T)
    requires
        distinct_keys(s, key),
        0 <= i < s.len(),
        key(x) == key(s[i]),
    ensures
        keyed_map(s.update(i, x), key) == keyed_map(s, key).insert(key(x), x),
    decreases s.len(),
{
    let t = s.update(i, x);
    if i == s.len() - 1 {
        assert(t.drop_last() =~= s.drop_last());
        assert(t.last() == x);
        assert(keyed_map(t, key) == keyed_map(s.drop_last(), key).insert(key(x), x));
        assert(keyed_map(s.drop_last(), key).insert(key(s.last()), s.last()).insert(key(x), x)
            =~= keyed_map(s.drop_last(), key).insert(key(x), x));
    } else {
        assert(distinct_keys(s.drop_last(), key)) by {
            assert(forall|a: int, b: int|
                0 <= a < b < s.drop_last().len() ==> s.drop_last()[a] == s[a] && s.drop_last()[b]
                    == s[b]);
        }
        assert(t.drop_last() =~= s.drop_last().update(i, x));
        assert(s.drop_last()[i] == s[i]);
        lemma_keyed_map_update(s.drop_last(), key, i, x);
        assert(t.last() == s.last());
        assert(key(x) != key(s.last()));
        assert(keyed_map(s.drop_last(), key).insert(key(x), x).insert(key(s.last()), s.last())
            =~= keyed_map(s.drop_last(), key).insert(key(s.last()), s.last()).insert(key(x), x));
    }
}

/// Removing the record at a key's position removes that key from the
/// keyed map.
pub proof fn lemma_keyed_map_remove<K, T>(s: Seq<T>, key: spec_fn(T) -> K, i: int)
    requires
        distinct_keys(s, key),
        0 <= i < s.len(),
    ensures
        keyed_map(s.remove(i), key) == keyed_map(s, key).remove(key(s[i])),
    decreases s.len(),
{
    let t = s.remove(i);
    if i == s.len() - 1 {
        assert(t =~= s.drop_last());
        lemma_keyed_map_absent_of_distinct(s, key, i);
        assert(keyed_map(s.drop_last(), key) =~= keyed_map(s.drop_last(), key).insert(
            key(s.last()),
            s.last(),
        ).remove(key(s.last())));
    } else {
        assert(distinct_keys(s.drop_last(), key)) by {
            assert(forall|a: int, b: int|
                0 <= a < b < s.drop_last().len() ==> s.drop_last()[a] == s[a] && s.drop_last()[b]
                    == s[b]);
        }
        assert(t.drop_last() =~= s.drop_last().remove(i));
        assert(s.drop_last()[i] == s[i]);
        lemma_keyed_map_remove(s.drop_last(), key, i);
        assert(t.last() == s.last());
        assert(key(s[i]) != key(s.last()));
        assert(keyed_map(s.drop_last(), key).remove(key(s[i])).insert(key(s.last()), s.last())
            =~= keyed_map(s.drop_last(), key).insert(key(s.last()), s.last()).remove(key(s[i])));
    }
}

/// With distinct keys, no record before the last carries the last's key.
proof fn lemma_keyed_map_absent_of_distinct<K, T>(s: Seq<T>, key: spec_fn(T) -> K, i: int)
    requires
        distinct_keys(s, key),
        0 <= i == s.len() - 1,
    ensures
        !keyed_map(s.drop_last(), key).contains_key(key(s[i])),
{
    assert(forall|j: int|
        0 <= j < s.drop_last().len() ==> key(#[trigger] s.drop_last()[j]) != key(s[i])) by {
        assert(forall|j: int| 0 <= j < s.len() - 1 ==> s.drop_last()[j] == s[j]);
    }
    lemma_keyed_map_absent(s.drop_last(), key, key(s[i]));
}

} // verus!
