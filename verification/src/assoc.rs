//! Key-value sequences viewed as maps.
//!
//! The executable containers of this crate store their entries in vectors;
//! these spec functions and lemmas connect such a sequence of pairs to the
//! `Map` it denotes, provided its keys are unique.

use vstd::prelude::*;

verus! {

/// The map denoted by a sequence of key-value pairs (a later pair wins).
pub open spec fn map_of<K, V>(s: Seq<(K, V)>) -> Map<K, V>
    decreases s.len(),
{
    if s.len() == 0 {
        Map::empty()
    } else {
        map_of(s.drop_last()).insert(s.last().0, s.last().1)
    }
}

/// No two pairs share a key.
pub open spec fn unique_keys<K, V>(s: Seq<(K, V)>) -> bool {
    forall|i: int, j: int| 0 <= i < j < s.len() ==> s[i].0 != s[j].0
}

/// A key is in the map exactly when some pair holds it.
pub proof fn lemma_map_of_contains<K, V>(s: Seq<(K, V)>, k: K)
    ensures
        map_of(s).contains_key(k) <==> exists|i: int| 0 <= i < s.len() && s[i].0 == k,
    decreases s.len(),
{
    if s.len() > 0 {
        lemma_map_of_contains(s.drop_last(), k);
        if s.last().0 == k {
            assert(s[s.len() - 1].0 == k);
        } else if map_of(s).contains_key(k) {
            let i = choose|i: int| 0 <= i < s.drop_last().len() && s.drop_last()[i].0 == k;
            assert(s[i].0 == k);
        } else if exists|i: int| 0 <= i < s.len() && s[i].0 == k {
            let i = choose|i: int| 0 <= i < s.len() && s[i].0 == k;
            assert(s.drop_last()[i].0 == k);
        }
    }
}

/// With unique keys, the pair at any index gives the map's value at its key.
pub proof fn lemma_map_of_at<K, V>(s: Seq<(K, V)>, i: int)
    requires
        unique_keys(s),
        0 <= i < s.len(),
    ensures
        map_of(s).contains_key(s[i].0),
        map_of(s)[s[i].0] == s[i].1,
    decreases s.len(),
{
    if i < s.len() - 1 {
        assert(s.drop_last()[i] == s[i]);
        lemma_map_of_at(s.drop_last(), i);
        assert(s[i].0 != s.last().0);
    }
}

/// Appending a fresh pair inserts its binding.
pub proof fn lemma_map_of_push<K, V>(s: Seq<(K, V)>, p: (K, V))
    ensures
        map_of(s.push(p)) == map_of(s).insert(p.0, p.1),
{
    assert(s.push(p).drop_last() =~= s);
    assert(s.push(p).last() == p);
}

/// Replacing the pair holding a key updates its binding and nothing else.
pub proof fn lemma_map_of_update<K, V>(s: Seq<(K, V)>, i: int, p: (K, V))
    requires
        unique_keys(s),
        0 <= i < s.len(),
        s[i].0 == p.0,
    ensures
        map_of(s.update(i, p)) =~= map_of(s).insert(p.0, p.1),
    decreases s.len(),
{
    if i == s.len() - 1 {
        assert(s.update(i, p).drop_last() =~= s.drop_last());
        assert(s.update(i, p).last() == p);
    } else {
        let t = s.drop_last();
        assert(s.update(i, p).drop_last() =~= t.update(i, p));
        assert(t[i] == s[i]);
        lemma_map_of_update(t, i, p);
        assert(s.update(i, p).last() == s.last());
        assert(s.last().0 != p.0);
    }
}

/// Removing the pair holding a key removes its binding and nothing else.
pub proof fn lemma_map_of_remove<K, V>(s: Seq<(K, V)>, i: int)
    requires
        unique_keys(s),
        0 <= i < s.len(),
    ensures
        map_of(s.remove(i)) =~= map_of(s).remove(s[i].0),
        unique_keys(s.remove(i)),
    decreases s.len(),
{
    lemma_map_of_contains(s.drop_last(), s[i].0);
    if i == s.len() - 1 {
        assert(s.remove(i) =~= s.drop_last());
        assert forall|k: int| 0 <= k < s.drop_last().len() implies s.drop_last()[k].0 != s[i].0 by {
            assert(s[k] == s.drop_last()[k]);
        }
        assert(!map_of(s.drop_last()).contains_key(s[i].0));
        assert(map_of(s.drop_last()) =~= map_of(s.drop_last()).insert(s.last().0, s.last().1).remove(
            s.last().0,
        ));
    } else {
        assert(s.remove(i).drop_last() =~= s.drop_last().remove(i));
        assert(s.remove(i).last() == s.last());
        assert(s.drop_last()[i] == s[i]);
        lemma_map_of_remove(s.drop_last(), i);
        assert(s[i].0 != s.last().0);
        assert(map_of(s.drop_last()).remove(s[i].0).insert(s.last().0, s.last().1) =~= map_of(
            s.drop_last(),
        ).insert(s.last().0, s.last().1).remove(s[i].0));
    }
}

/// Updating a pair in place keeps the keys unique.
pub proof fn lemma_unique_keys_update<K, V>(s: Seq<(K, V)>, i: int, p: (K, V))
    requires
        unique_keys(s),
        0 <= i < s.len(),
        s[i].0 == p.0,
    ensures
        unique_keys(s.update(i, p)),
{
}

/// Appending a fresh key keeps the keys unique.
pub proof fn lemma_unique_keys_push<K, V>(s: Seq<(K, V)>, p: (K, V))
    requires
        unique_keys(s),
        forall|i: int| 0 <= i < s.len() ==> s[i].0 != p.0,
    ensures
        unique_keys(s.push(p)),
{
}

} // verus!
