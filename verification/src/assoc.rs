//! The mathematical reading of an association list: a sequence of key/value
//! pairs with pairwise-distinct keys, read as a finite map.

use vstd::prelude::*;

verus! {

/// No key occurs twice in the pair sequence.
pub open spec fn unique_keys<K, M>(s: Seq<(K, M)>) -> bool {
    forall|i: int, j: int| 0 <= i < j < s.len() ==> s[i].0 != s[j].0
}

/// The map that a pair sequence denotes; a later pair would win, though under
/// `unique_keys` the question does not arise.
pub open spec fn assoc_map<K, M>(s: Seq<(K, M)>) -> Map<K, M>
    decreases s.len(),
{
    if s.len() == 0 {
        Map::empty()
    } else {
        assoc_map(s.drop_last()).insert(s.last().0, s.last().1)
    }
}

/// A key is in the map exactly when some pair holds it, and under unique keys
/// the map returns that pair's value.
pub proof fn lemma_assoc_map_lookup<K, M>(s: Seq<(K, M)>, k: K)
    ensures
        assoc_map(s).contains_key(k) <==> exists|i: int| 0 <= i < s.len() && s[i].0 == k,
        unique_keys(s) ==> forall|i: int|
            0 <= i < s.len() && s[i].0 == k ==> assoc_map(s)[k] == s[i].1,
    decreases s.len(),
{
    if s.len() > 0 {
        lemma_assoc_map_lookup(s.drop_last(), k);
        assert(forall|i: int| 0 <= i < s.len() - 1 ==> s.drop_last()[i] == s[i]);
        if exists|i: int| 0 <= i < s.len() && s[i].0 == k {
            let i = choose|i: int| 0 <= i < s.len() && s[i].0 == k;
            if i < s.len() - 1 {
                assert(s.drop_last()[i].0 == k);
            }
            assert(assoc_map(s).contains_key(k));
        }
    }
}

/// Replacing the value of the pair at `i` replaces that key's value in the
/// denoted map.
pub proof fn lemma_assoc_map_update<K, M>(s: Seq<(K, M)>, i: int, v: M)
    requires
        unique_keys(s),
        0 <= i < s.len(),
    ensures
        assoc_map(s.update(i, (s[i].0, v))) =~= assoc_map(s).insert(s[i].0, v),
        unique_keys(s.update(i, (s[i].0, v))),
    decreases s.len(),
{
    let t = s.update(i, (s[i].0, v));
    assert(forall|j: int| 0 <= j < s.len() ==> t[j].0 == s[j].0);
    if i == s.len() - 1 {
        assert(t.drop_last() =~= s.drop_last());
    } else {
        assert(t.drop_last() =~= s.drop_last().update(i, (s[i].0, v)));
        assert(forall|a: int, b: int|
            0 <= a < b < s.len() - 1 ==> s.drop_last()[a].0 != s.drop_last()[b].0);
        lemma_assoc_map_update(s.drop_last(), i, v);
        lemma_assoc_map_lookup(s, s[i].0);
        assert(s.last().0 != s[i].0);
    }
}

/// Appending a pair with a fresh key inserts it into the denoted map.
pub proof fn lemma_assoc_map_push<K, M>(s: Seq<(K, M)>, k: K, v: M)
    requires
        unique_keys(s),
        forall|i: int| 0 <= i < s.len() ==> s[i].0 != k,
    ensures
        assoc_map(s.push((k, v))) =~= assoc_map(s).insert(k, v),
        unique_keys(s.push((k, v))),
{
    assert(s.push((k, v)).drop_last() =~= s);
}

} // verus!
