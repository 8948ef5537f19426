//! Association tables: a sequence of key/value pairs read as a map.
//!
//! The ledger's output index and the oracle's deposit and withdrawal tables
//! are stored as plain vectors of pairs. `lookup` reads such a sequence as a
//! map in which the latest binding for a key wins, so pushing a pair is
//! exactly a map update.

use vstd::prelude::*;

verus! {

/// The value bound to `k`, taking the latest binding when a key occurs more
/// than once; `None` where the key is absent.
pub open spec fn lookup<K, V>(s: Seq<(K, V)>, k: K) -> Option<V>
    decreases s.len(),
{
    if s.len() == 0 {
        None
    } else if s.last().0 == k {
        Some(s.last().1)
    } else {
        lookup(s.drop_last(), k)
    }
}

/// No key is bound twice.
pub open spec fn unique_keys<K, V>(s: Seq<(K, V)>) -> bool {
    forall|i: int, j: int| 0 <= i < j < s.len() ==> s[i].0 != s[j].0
}

/// A key is absent exactly when `lookup` finds nothing for it.
pub proof fn lemma_lookup_is_none<K, V>(s: Seq<(K, V)>, k: K)
    ensures
        (lookup(s, k) is None) <==> (forall|j: int| 0 <= j < s.len() ==> s[j].0 != k),
    decreases s.len(),
{
    if s.len() > 0 {
        lemma_lookup_is_none(s.drop_last(), k);
        if s.last().0 != k && (lookup(s.drop_last(), k) is None) {
            assert forall|j: int| 0 <= j < s.len() implies s[j].0 != k by {
                if j < s.len() - 1 {
                    assert(s.drop_last()[j].0 != k);
                }
            }
        }
    }
}

/// Removing the pair at `i` in a table without repeated keys unbinds exactly
/// that pair's key and leaves every other key's binding alone.
pub proof fn lemma_lookup_remove<K, V>(s: Seq<(K, V)>, i: int)
    requires
        unique_keys(s),
        0 <= i < s.len(),
    ensures
        forall|k: K| lookup(s.remove(i), k) == (if k == s[i].0 {
            None::<V>
        } else {
            lookup(s, k)
        }),
        unique_keys(s.remove(i)),
    decreases s.len(),
{
    let r = s.remove(i);
    s.remove_ensures(i);
    assert forall|x: int, y: int| 0 <= x < y < r.len() implies r[x].0 != r[y].0 by {
        let x0: int = if x < i { x } else { x + 1 };
        let y0: int = if y < i { y } else { y + 1 };
        assert(r[x] == s[x0]);
        assert(r[y] == s[y0]);
    }
    if i == s.len() - 1 {
        assert(r =~= s.drop_last());
        assert forall|k: K|
            lookup(r, k) == (if k == s[i].0 { None::<V> } else { lookup(s, k) }) by {
            if k == s[i].0 {
                assert forall|j: int| 0 <= j < r.len() implies r[j].0 != k by {
                    assert(s[j].0 != s[i].0);
                }
                lemma_lookup_is_none(r, k);
            } else {
                assert(s.last().0 != k);
                assert(lookup(s, k) == lookup(s.drop_last(), k));
            }
        }
    } else {
        assert forall|x: int, y: int|
            0 <= x < y < s.drop_last().len() implies s.drop_last()[x].0 != s.drop_last()[y].0 by {
            assert(s.drop_last()[x] == s[x]);
            assert(s.drop_last()[y] == s[y]);
        }
        lemma_lookup_remove(s.drop_last(), i);
        assert(r.drop_last() =~= s.drop_last().remove(i));
        assert(r.last() == s.last());
        assert(s.drop_last()[i] == s[i]);
        assert forall|k: K|
            lookup(r, k) == (if k == s[i].0 { None::<V> } else { lookup(s, k) }) by {
            if r.last().0 == k {
                assert(lookup(r, k) == Some(r.last().1));
                assert(lookup(s, k) == Some(s.last().1));
                assert(s[i].0 != s[s.len() - 1].0);
            } else {
                assert(lookup(r, k) == lookup(r.drop_last(), k));
                assert(lookup(s, k) == lookup(s.drop_last(), k));
            }
        }
    }
}

/// Pushing a pair is a map update: the pushed key is now bound to the pushed
/// value, every other key keeps its binding.
pub proof fn lemma_lookup_push<K, V>(s: Seq<(K, V)>, k: K, v: V)
    ensures
        forall|k2: K| lookup(s.push((k, v)), k2) == (if k2 == k {
            Some(v)
        } else {
            lookup(s, k2)
        }),
{
    assert(s.push((k, v)).drop_last() =~= s);
    assert(s.push((k, v)).last() == (k, v));
}

} // verus!
