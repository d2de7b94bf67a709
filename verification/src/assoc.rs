//! Key-addressed association vectors: the storage shape behind the node
//! store and the authority ledger. A vector of (key, value) pairs with
//! pairwise-distinct keys, read through its map abstraction.

use vstd::prelude::*;

use crate::key::Key;

verus! {

/// The map a pair vector denotes.
pub open spec fn map_of<V>(s: Seq<(Key, V)>) -> Map<Key, V>
    decreases s.len(),
{
    if s.len() == 0 {
        Map::empty()
    } else {
        map_of(s.drop_last()).insert(s.last().0, s.last().1)
    }
}

/// No key appears twice.
pub open spec fn keys_unique<V>(s: Seq<(Key, V)>) -> bool {
    forall|i: int, j: int| 0 <= i < j < s.len() ==> (#[trigger] s[i]).0 != (#[trigger] s[j]).0
}

/// A key is in the map exactly when some pair carries it.
pub proof fn lemma_map_of_contains<V>(s: Seq<(Key, V)>, k: Key)
    ensures
        map_of(s).contains_key(k) <==> exists|i: int| 0 <= i < s.len() && (#[trigger] s[i]).0 == k,
    decreases s.len(),
{
    if s.len() > 0 {
        lemma_map_of_contains(s.drop_last(), k);
        if s.last().0 == k {
            assert(s[s.len() - 1].0 == k);
        } else if map_of(s).contains_key(k) {
            let i = choose|i: int| 0 <= i < s.drop_last().len() && (#[trigger] s.drop_last()[i]).0
                == k;
            assert(s[i].0 == k);
        } else {
            assert forall|i: int| 0 <= i < s.len() implies (#[trigger] s[i]).0 != k by {
                if i < s.len() - 1 {
                    assert(s.drop_last()[i] == s[i]);
                }
            }
        }
    }
}

/// With unique keys, the pair at any position is what the map holds for its
/// key.
pub proof fn lemma_map_of_index<V>(s: Seq<(Key, V)>, i: int)
    requires
        keys_unique(s),
        0 <= i < s.len(),
    ensures
        map_of(s).contains_key(s[i].0),
        map_of(s)[s[i].0] == s[i].1,
    decreases s.len(),
{
    if i == s.len() - 1 {
    } else {
        assert(keys_unique(s.drop_last())) by {
            assert forall|x: int, y: int|
                0 <= x < y < s.drop_last().len() implies (#[trigger] s.drop_last()[x]).0 != (
            #[trigger] s.drop_last()[y]).0 by {
                assert(s[x] == s.drop_last()[x]);
                assert(s[y] == s.drop_last()[y]);
            }
        }
        assert(s.drop_last()[i] == s[i]);
        lemma_map_of_index(s.drop_last(), i);
        assert(s[i].0 != s.last().0);
    }
}

/// Appending a pair with a fresh key inserts it into the map and keeps the
/// keys unique.
pub proof fn lemma_map_of_push<V>(s: Seq<(Key, V)>, k: Key, v: V)
    requires
        keys_unique(s),
        forall|i: int| 0 <= i < s.len() ==> (#[trigger] s[i]).0 != k,
    ensures
        map_of(s.push((k, v))) == map_of(s).insert(k, v),
        keys_unique(s.push((k, v))),
{
    let t = s.push((k, v));
    assert(t.drop_last() =~= s);
    assert(t.last() == (k, v));
    assert(map_of(t) == map_of(s).insert(k, v));
    assert forall|i: int, j: int| 0 <= i < j < t.len() implies (#[trigger] t[i]).0 != (
    #[trigger] t[j]).0 by {
        if j < t.len() - 1 {
            assert(t[i] == s[i] && t[j] == s[j]);
        } else {
            assert(t[i] == s[i]);
        }
    }
}

/// Replacing the value at position `i` updates the map at that key and keeps
/// the keys unique.
pub proof fn lemma_map_of_update<V>(s: Seq<(Key, V)>, i: int, v: V)
    requires
        keys_unique(s),
        0 <= i < s.len(),
    ensures
        map_of(s.update(i, (s[i].0, v))) == map_of(s).insert(s[i].0, v),
        keys_unique(s.update(i, (s[i].0, v))),
    decreases s.len(),
{
    let t = s.update(i, (s[i].0, v));
    assert forall|x: int, y: int| 0 <= x < y < t.len() implies (#[trigger] t[x]).0 != (
    #[trigger] t[y]).0 by {
        assert(t[x].0 == s[x].0 && t[y].0 == s[y].0);
    }
    if i == s.len() - 1 {
        assert(t.drop_last() =~= s.drop_last());
        assert(t.last() == (s[i].0, v));
        assert(map_of(t) =~= map_of(s).insert(s[i].0, v));
    } else {
        assert(keys_unique(s.drop_last())) by {
            assert forall|x: int, y: int|
                0 <= x < y < s.drop_last().len() implies (#[trigger] s.drop_last()[x]).0 != (
            #[trigger] s.drop_last()[y]).0 by {
                assert(s[x] == s.drop_last()[x]);
                assert(s[y] == s.drop_last()[y]);
            }
        }
        assert(s.drop_last()[i] == s[i]);
        lemma_map_of_update(s.drop_last(), i, v);
        assert(t.drop_last() =~= s.drop_last().update(i, (s[i].0, v)));
        assert(t.last() == s.last());
        assert(s[i].0 != s.last().0);
        assert(map_of(t) =~= map_of(s).insert(s[i].0, v));
    }
}

/// Removing the pair at position `i` removes its key from the map and keeps
/// the keys unique.
pub proof fn lemma_map_of_remove<V>(s: Seq<(Key, V)>, i: int)
    requires
        keys_unique(s),
        0 <= i < s.len(),
    ensures
        map_of(s.remove(i)) == map_of(s).remove(s[i].0),
        keys_unique(s.remove(i)),
    decreases s.len(),
{
    let t = s.remove(i);
    assert forall|x: int, y: int| 0 <= x < y < t.len() implies (#[trigger] t[x]).0 != (
    #[trigger] t[y]).0 by {
        if x < i && y < i {
            assert(t[x] == s[x] && t[y] == s[y]);
        } else if x < i {
            assert(t[x] == s[x] && t[y] == s[y + 1]);
        } else {
            assert(t[x] == s[x + 1] && t[y] == s[y + 1]);
        }
    }
    if i == s.len() - 1 {
        assert(t =~= s.drop_last());
        lemma_map_of_contains(s.drop_last(), s[i].0);
        assert forall|x: int| 0 <= x < s.drop_last().len() implies (#[trigger] s.drop_last()[x]).0
            != s[i].0 by {
            assert(s.drop_last()[x] == s[x]);
        }
        assert(!map_of(s.drop_last()).contains_key(s[i].0));
        assert(map_of(s.remove(i)) =~= map_of(s).remove(s[i].0));
    } else {
        assert(keys_unique(s.drop_last())) by {
            assert forall|x: int, y: int|
                0 <= x < y < s.drop_last().len() implies (#[trigger] s.drop_last()[x]).0 != (
            #[trigger] s.drop_last()[y]).0 by {
                assert(s[x] == s.drop_last()[x]);
                assert(s[y] == s.drop_last()[y]);
            }
        }
        assert(s.drop_last()[i] == s[i]);
        lemma_map_of_remove(s.drop_last(), i);
        assert(t.drop_last() =~= s.drop_last().remove(i));
        assert(t.last() == s.last());
        assert(s[i].0 != s.last().0);
        assert(map_of(t) =~= map_of(s).remove(s[i].0));
    }
}

} // verus!
