//! Association lists with distinct keys, viewed as mathematical maps.
//!
//! The arena, the header set and the module registry all store their
//! entries as a vector of key/value pairs; their contracts speak of the
//! map those pairs denote. This module defines that denotation and the
//! lemmas that connect the vector operations to map operations.
use vstd::prelude::*;

verus! {

/// The map denoted by a sequence of key/value pairs; a later entry for a
/// key shadows an earlier one.
pub open spec fn assoc_map<K: View, V: View>(s: Seq<(K, V)>) -> Map<K::V, V::V>
    decreases s.len(),
{
    if s.len() == 0 {
        Map::empty()
    } else {
        assoc_map(s.drop_last()).insert(s.last().0@, s.last().1@)
    }
}

/// No two entries carry the same key.
pub open spec fn distinct_keys<K: View, V: View>(s: Seq<(K, V)>) -> bool {
    forall|i: int, j: int| 0 <= i < j < s.len() ==> s[i].0@ != s[j].0@
}

/// Some entry carries the key `k`.
pub open spec fn has_key<K: View, V: View>(s: Seq<(K, V)>, k: K::V) -> bool {
    exists|i: int| 0 <= i < s.len() && s[i].0@ == k
}

/// The domain of the denoted map is exactly the set of keys that occur.
pub proof fn lemma_assoc_map_dom<K: View, V: View>(s: Seq<(K, V)>)
    ensures
        forall|k: K::V| #[trigger] assoc_map(s).dom().contains(k) <==> has_key(s, k),
    decreases s.len(),
{
    if s.len() == 0 {
    } else {
        lemma_assoc_map_dom::<K, V>(s.drop_last());
        assert forall|k: K::V| #[trigger] assoc_map(s).dom().contains(k) implies has_key(s, k) by {
            if k == s.last().0@ {
                assert(s[s.len() - 1].0@ == k);
            } else {
                assert(assoc_map(s.drop_last()).dom().contains(k));
                assert(has_key(s.drop_last(), k));
                let i = choose|i: int|
                    0 <= i < s.drop_last().len() && s.drop_last()[i].0@ == k;
                assert(s.drop_last()[i] == s[i]);
                assert(s[i].0@ == k);
            }
        }
        assert forall|k: K::V| has_key(s, k) implies #[trigger] assoc_map(s).dom().contains(
            k,
        ) by {
            let i = choose|i: int| 0 <= i < s.len() && s[i].0@ == k;
            if i < s.len() - 1 {
                assert(s.drop_last()[i].0@ == k);
                assert(has_key(s.drop_last(), k));
                assert(assoc_map(s.drop_last()).dom().contains(k));
            } else {
                assert(s.last().0@ == k);
            }
        }
    }
}

/// With distinct keys, the entry at index `i` is what the map holds for
/// its key.
pub proof fn lemma_assoc_map_index<K: View, V: View>(s: Seq<(K, V)>, i: int)
    requires
        distinct_keys(s),
        0 <= i < s.len(),
    ensures
        assoc_map(s).dom().contains(s[i].0@),
        assoc_map(s)[s[i].0@] == s[i].1@,
    decreases s.len(),
{
    if i == s.len() - 1 {
    } else {
        assert(distinct_keys::<K, V>(s.drop_last()));
        lemma_assoc_map_index::<K, V>(s.drop_last(), i);
        assert(s.drop_last()[i] == s[i]);
        assert(s.last().0@ != s[i].0@);
    }
}

/// Appending an entry with a fresh key inserts it into the denoted map.
pub proof fn lemma_assoc_map_push<K: View, V: View>(s: Seq<(K, V)>, k: K, v: V)
    ensures
        assoc_map(s.push((k, v))) == assoc_map(s).insert(k@, v@),
{
    assert(s.push((k, v)).drop_last() =~= s);
}

/// With distinct keys, removing the entry at index `i` removes its key
/// from the denoted map.
pub proof fn lemma_assoc_map_remove<K: View, V: View>(s: Seq<(K, V)>, i: int)
    requires
        distinct_keys(s),
        0 <= i < s.len(),
    ensures
        assoc_map(s.remove(i)) == assoc_map(s).remove(s[i].0@),
    decreases s.len(),
{
    if i == s.len() - 1 {
        assert(s.remove(i) =~= s.drop_last());
        lemma_assoc_map_dom::<K, V>(s.drop_last());
        assert(!has_key(s.drop_last(), s[i].0@)) by {
            if has_key(s.drop_last(), s[i].0@) {
                let j = choose|j: int|
                    0 <= j < s.drop_last().len() && s.drop_last()[j].0@ == s[i].0@;
                assert(s[j].0@ == s[i].0@ && j < i);
                assert(false);
            }
        }
        assert(assoc_map(s).remove(s[i].0@) =~= assoc_map(s.drop_last()));
    } else {
        let t = s.drop_last();
        assert(distinct_keys::<K, V>(t));
        lemma_assoc_map_remove::<K, V>(t, i);
        assert(s.remove(i).drop_last() =~= t.remove(i));
        assert(s.remove(i).last() == s.last());
        assert(s[i].0@ != s.last().0@);
        assert(t[i] == s[i]);
        assert(assoc_map(t).remove(s[i].0@).insert(s.last().0@, s.last().1@) =~= assoc_map(
            t,
        ).insert(s.last().0@, s.last().1@).remove(s[i].0@));
    }
}

} // verus!
