//! Association sequences: a sequence of key/value pairs read as a map.
//!
//! Both the in-memory pointer store and the new-changesets mapping keep
//! their entries in a vector and are specified through the map that the
//! vector denotes.  A later entry for the same key shadows an earlier one,
//! so pushing a pair is exactly `Map::insert`.

use vstd::prelude::*;

verus! {

/// The map denoted by a sequence of key/value pairs, later entries winning.
/// Keys are compared through their views, so a `BookmarkName` keys by its
/// character sequence and a plain identifier by itself.
pub open spec fn keyed_map<K: View, V>(s: Seq<(K, V)>) -> Map<<K as View>::V, V>
    decreases s.len(),
{
    if s.len() == 0 {
        Map::empty()
    } else {
        keyed_map(s.drop_last()).insert(s.last().0@, s.last().1)
    }
}

/// No two entries share a key.
pub open spec fn uniq_keys<K: View, V>(s: Seq<(K, V)>) -> bool {
    forall|i: int, j: int| 0 <= i < j < s.len() ==> s[i].0@ != s[j].0@
}

/// Pushing a pair inserts it into the denoted map.
pub proof fn lemma_keyed_map_push<K: View, V>(s: Seq<(K, V)>, p: (K, V))
    ensures
        keyed_map(s.push(p)) == keyed_map(s).insert(p.0@, p.1),
{
    assert(s.push(p).drop_last() =~= s);
    assert(s.push(p).last() == p);
}

/// A key is in the denoted map exactly when some entry carries it.
pub proof fn lemma_keyed_map_dom<K: View, V>(s: Seq<(K, V)>, k: <K as View>::V)
    ensures
        keyed_map(s).dom().contains(k) <==> exists|i: int| 0 <= i < s.len() && s[i].0@ == k,
    decreases s.len(),
{
    if s.len() > 0 {
        lemma_keyed_map_dom(s.drop_last(), k);
        if s.last().0@ != k {
            if exists|i: int| 0 <= i < s.len() && s[i].0@ == k {
                let i = choose|i: int| 0 <= i < s.len() && s[i].0@ == k;
                assert(s.drop_last()[i] == s[i]);
            }
        }
    }
}

/// The value for a key is the one carried by its last entry.
pub proof fn lemma_keyed_map_value<K: View, V>(s: Seq<(K, V)>, i: int)
    requires
        0 <= i < s.len(),
        forall|j: int| i < j < s.len() ==> s[j].0@ != s[i].0@,
    ensures
        keyed_map(s).dom().contains(s[i].0@),
        keyed_map(s)[s[i].0@] == s[i].1,
    decreases s.len(),
{
    if i == s.len() - 1 {
    } else {
        assert(s.drop_last()[i] == s[i]);
        lemma_keyed_map_value(s.drop_last(), i);
    }
}

/// Concatenation denotes the union of the two maps, the right one winning.
pub proof fn lemma_keyed_map_concat<K: View, V>(s1: Seq<(K, V)>, s2: Seq<(K, V)>)
    ensures
        keyed_map(s1 + s2) == keyed_map(s1).union_prefer_right(keyed_map(s2)),
    decreases s2.len(),
{
    if s2.len() == 0 {
        assert(s1 + s2 =~= s1);
        assert(keyed_map(s1).union_prefer_right(Map::empty()) =~= keyed_map(s1));
    } else {
        lemma_keyed_map_concat(s1, s2.drop_last());
        assert((s1 + s2).drop_last() =~= s1 + s2.drop_last());
        assert((s1 + s2).last() == s2.last());
        assert(keyed_map(s1).union_prefer_right(keyed_map(s2.drop_last())).insert(
            s2.last().0@,
            s2.last().1,
        ) =~= keyed_map(s1).union_prefer_right(
            keyed_map(s2.drop_last()).insert(s2.last().0@, s2.last().1),
        ));
    }
}

/// The denoted map's domain is finite.
pub proof fn lemma_keyed_map_finite<K: View, V>(s: Seq<(K, V)>)
    ensures
        keyed_map(s).dom().finite(),
        keyed_map(s).dom().len() <= s.len(),
    decreases s.len(),
{
    if s.len() > 0 {
        lemma_keyed_map_finite(s.drop_last());
    }
}

} // verus!
