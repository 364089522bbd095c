//! Association sequences as maps.
//!
//! The executable stores keep their entries in vectors; their contracts speak
//! of maps. `pairs_map` reads a sequence of key-value pairs as the map in
//! which later entries win, and the lemmas here relate the vector operations
//! (push, remove, update) to the map operations, under unique keys.

use vstd::prelude::*;

verus! {

/// The map that a sequence of key-value pairs denotes.
pub open spec fn pairs_map<K, V>(s: Seq<(K, V)>) -> Map<K, V>
    decreases s.len(),
{
    if s.len() == 0 {
        Map::<K, V>::empty()
    } else {
        pairs_map(s.drop_last()).insert(s.last().0, s.last().1)
    }
}

/// No two entries share a key.
pub open spec fn unique_keys<K, V>(s: Seq<(K, V)>) -> bool {
    forall|i: int, j: int| 0 <= i < j < s.len() ==> s[i].0 != s[j].0
}

/// The key of any entry is in the map.
pub proof fn lemma_pairs_map_contains_at<K, V>(s: Seq<(K, V)>, i: int)
    requires
        0 <= i < s.len(),
    ensures
        pairs_map(s).contains_key(s[i].0),
    decreases s.len(),
{
    if i < s.len() - 1 {
        lemma_pairs_map_contains_at(s.drop_last(), i);
    }
}

/// A key under which no entry stands is not in the map.
pub proof fn lemma_pairs_map_absent<K, V>(s: Seq<(K, V)>, k: K)
    requires
        forall|i: int| 0 <= i < s.len() ==> s[i].0 != k,
    ensures
        !pairs_map(s).contains_key(k),
    decreases s.len(),
{
    if s.len() > 0 {
        lemma_pairs_map_absent(s.drop_last(), k);
    }
}

/// A key is in the map exactly when some entry carries it.
pub proof fn lemma_pairs_map_dom<K, V>(s: Seq<(K, V)>, k: K)
    ensures
        pairs_map(s).contains_key(k) <==> exists|i: int| 0 <= i < s.len() && s[i].0 == k,
{
    if exists|i: int| 0 <= i < s.len() && s[i].0 == k {
        let i = choose|i: int| 0 <= i < s.len() && s[i].0 == k;
        lemma_pairs_map_contains_at(s, i);
    } else {
        lemma_pairs_map_absent(s, k);
    }
}

/// Under unique keys, the map sends each entry's key to that entry's value.
pub proof fn lemma_pairs_map_at<K, V>(s: Seq<(K, V)>, i: int)
    requires
        unique_keys(s),
        0 <= i < s.len(),
    ensures
        pairs_map(s).contains_key(s[i].0),
        pairs_map(s)[s[i].0] == s[i].1,
    decreases s.len(),
{
    lemma_pairs_map_contains_at(s, i);
    if i < s.len() - 1 {
        lemma_pairs_map_at(s.drop_last(), i);
    }
}

/// Appending an entry inserts its pair.
pub proof fn lemma_pairs_map_push<K, V>(s: Seq<(K, V)>, p: (K, V))
    ensures
        pairs_map(s.push(p)) == pairs_map(s).insert(p.0, p.1),
{
    assert(s.push(p).drop_last() =~= s);
}

/// Under unique keys, removing the entry at an index removes its key.
pub proof fn lemma_pairs_map_remove<K, V>(s: Seq<(K, V)>, i: int)
    requires
        unique_keys(s),
        0 <= i < s.len(),
    ensures
        pairs_map(s.remove(i)) =~= pairs_map(s).remove(s[i].0),
    decreases s.len(),
{
    if i == s.len() - 1 {
        assert(s.remove(i) =~= s.drop_last());
        lemma_pairs_map_absent(s.drop_last(), s[i].0);
    } else {
        assert(s.remove(i).drop_last() =~= s.drop_last().remove(i));
        lemma_pairs_map_remove(s.drop_last(), i);
    }
}

/// Under unique keys, overwriting the entry at an index, keeping its key,
/// inserts the new value under that key.
pub proof fn lemma_pairs_map_update<K, V>(s: Seq<(K, V)>, i: int, p: (K, V))
    requires
        unique_keys(s),
        0 <= i < s.len(),
        s[i].0 == p.0,
    ensures
        pairs_map(s.update(i, p)) =~= pairs_map(s).insert(p.0, p.1),
    decreases s.len(),
{
    if i == s.len() - 1 {
        assert(s.update(i, p).drop_last() =~= s.drop_last());
    } else {
        assert(s.update(i, p).drop_last() =~= s.drop_last().update(i, p));
        assert(s.update(i, p).last() == s.last());
        lemma_pairs_map_update(s.drop_last(), i, p);
    }
}

} // verus!
