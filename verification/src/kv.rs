//! Association lists read as maps. The reconciliation results are lists of
//! key/value pairs with unique keys; `kv_map` is their mathematical reading,
//! and the lemmas here relate list edits to map edits.

use vstd::prelude::*;

verus! {

/// The map that a sequence of key/value pairs denotes; a later pair with the
/// same key replaces an earlier one, as repeated insertion would.
pub open spec fn kv_map<K, V>(s: Seq<(K, V)>) -> Map<K, V>
    decreases s.len(),
{
    if s.len() == 0 {
        Map::empty()
    } else {
        kv_map(s.drop_last()).insert(s.last().0, s.last().1)
    }
}

/// No two pairs of the sequence share a key.
pub open spec fn kv_keys_unique<K, V>(s: Seq<(K, V)>) -> bool {
    forall|i: int, j: int| 0 <= i < j < s.len() ==> (#[trigger] s[i]).0 != (#[trigger] s[j]).0
}

/// Some pair of the sequence carries the key.
pub open spec fn kv_has_key<K, V>(s: Seq<(K, V)>, k: K) -> bool {
    exists|i: int| 0 <= i < s.len() && (#[trigger] s[i]).0 == k
}

/// A key is in the denoted map exactly when some pair carries it.
pub proof fn lemma_kv_map_contains<K, V>(s: Seq<(K, V)>, k: K)
    ensures
        kv_map(s).contains_key(k) <==> kv_has_key(s, k),
    decreases s.len(),
{
    if s.len() > 0 {
        lemma_kv_map_contains(s.drop_last(), k);
        if s.last().0 == k {
            assert(s[s.len() - 1].0 == k);
        } else if kv_has_key(s.drop_last(), k) {
            let i = choose|i: int| 0 <= i < s.drop_last().len() && (#[trigger] s.drop_last()[i]).0 == k;
            assert(s[i].0 == k);
        } else if kv_has_key(s, k) {
            let i = choose|i: int| 0 <= i < s.len() && (#[trigger] s[i]).0 == k;
            assert(s.drop_last()[i].0 == k);
        }
    }
}

/// Under unique keys, the pair that carries a key gives that key's value in
/// the denoted map.
pub proof fn lemma_kv_map_index<K, V>(s: Seq<(K, V)>, i: int)
    requires
        kv_keys_unique(s),
        0 <= i < s.len(),
    ensures
        kv_map(s)[s[i].0] == s[i].1,
    decreases s.len(),
{
    if i == s.len() - 1 {
        assert(kv_map(s)[s.last().0] == s.last().1);
    } else {
        assert(s.drop_last()[i] == s[i]);
        lemma_kv_map_index(s.drop_last(), i);
        assert(s[i].0 != s.last().0);
    }
}

/// Replacing the value of the pair that carries a key edits the denoted map
/// as an insertion of that key would.
pub proof fn lemma_kv_map_update<K, V>(s: Seq<(K, V)>, i: int, v: V)
    requires
        kv_keys_unique(s),
        0 <= i < s.len(),
    ensures
        kv_map(s.update(i, (s[i].0, v))) == kv_map(s).insert(s[i].0, v),
        kv_keys_unique(s.update(i, (s[i].0, v))),
    decreases s.len(),
{
    let t = s.update(i, (s[i].0, v));
    assert forall|p: int, q: int| 0 <= p < q < t.len() implies (#[trigger] t[p]).0 != (#[trigger] t[q]).0 by {
        assert(t[p].0 == s[p].0 && t[q].0 == s[q].0);
    }
    if i == s.len() - 1 {
        assert(t.drop_last() =~= s.drop_last());
        assert(kv_map(t) == kv_map(s.drop_last()).insert(s[i].0, v));
        assert(kv_map(s).insert(s[i].0, v) =~= kv_map(s.drop_last()).insert(s[i].0, v));
    } else {
        assert(t.drop_last() =~= s.drop_last().update(i, (s[i].0, v)));
        assert(s.drop_last()[i] == s[i]);
        lemma_kv_map_update(s.drop_last(), i, v);
        assert(t.last() == s.last());
        assert(s[i].0 != s.last().0);
        assert(kv_map(t) == kv_map(s.drop_last()).insert(s[i].0, v).insert(s.last().0, s.last().1));
        assert(kv_map(s.drop_last()).insert(s[i].0, v).insert(s.last().0, s.last().1)
            =~= kv_map(s.drop_last()).insert(s.last().0, s.last().1).insert(s[i].0, v));
    }
}

/// Appending a pair with a fresh key keeps the keys unique and inserts into
/// the denoted map.
pub proof fn lemma_kv_map_push<K, V>(s: Seq<(K, V)>, k: K, v: V)
    requires
        kv_keys_unique(s),
        !kv_has_key(s, k),
    ensures
        kv_map(s.push((k, v))) == kv_map(s).insert(k, v),
        kv_keys_unique(s.push((k, v))),
{
    assert(s.push((k, v)).drop_last() =~= s);
    assert forall|i: int, j: int| 0 <= i < j < s.push((k, v)).len()
        implies (#[trigger] s.push((k, v))[i]).0 != (#[trigger] s.push((k, v))[j]).0 by {
        if j == s.len() {
            assert(s[i].0 == s.push((k, v))[i].0);
        } else {
            assert(s.push((k, v))[i] == s[i] && s.push((k, v))[j] == s[j]);
        }
    }
}

} // verus!
