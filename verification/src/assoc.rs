//! Association lists: a sequence of pairs read as a map in which a later
//! pair shadows an earlier one with the same key.

use vstd::prelude::*;

verus! {

/// The map that the pairs of `s` stand for; of two pairs with one key the
/// later one counts.
pub open spec fn assoc_map<K, V>(s: Seq<(K, V)>) -> Map<K, V>
    decreases s.len(),
{
    if s.len() == 0 {
        Map::empty()
    } else {
        assoc_map(s.drop_last()).insert(s.last().0, s.last().1)
    }
}

/// A pair that no later pair shadows is what the map holds for its key.
pub proof fn lemma_assoc_hit<K, V>(s: Seq<(K, V)>, i: int)
    requires
        0 <= i < s.len(),
        forall|j: int| i < j < s.len() ==> (#[trigger] s[j]).0 != s[i].0,
    ensures
        assoc_map(s).contains_key(s[i].0),
        assoc_map(s)[s[i].0] == s[i].1,
    decreases s.len(),
{
    if i < s.len() - 1 {
        let front = s.drop_last();
        assert(front[i] == s[i]);
        assert forall|j: int| i < j < front.len() implies (#[trigger] front[j]).0 != front[i].0 by {
            assert(front[j] == s[j]);
        }
        lemma_assoc_hit(front, i);
        assert(s.last() == s[s.len() - 1]);
    }
}

/// A key that no pair has is not in the map.
pub proof fn lemma_assoc_miss<K, V>(s: Seq<(K, V)>, k: K)
    requires
        forall|j: int| 0 <= j < s.len() ==> (#[trigger] s[j]).0 != k,
    ensures
        !assoc_map(s).contains_key(k),
    decreases s.len(),
{
    if s.len() > 0 {
        let front = s.drop_last();
        assert forall|j: int| 0 <= j < front.len() implies (#[trigger] front[j]).0 != k by {
            assert(front[j] == s[j]);
        }
        lemma_assoc_miss(front, k);
        assert(s.last() == s[s.len() - 1]);
    }
}

/// Pairs appended to a list shadow the list: the map of `a + b` is the map of
/// `a` overlaid with the map of `b`.
pub proof fn lemma_assoc_concat<K, V>(a: Seq<(K, V)>, b: Seq<(K, V)>)
    ensures
        assoc_map(a + b) == assoc_map(a).union_prefer_right(assoc_map(b)),
    decreases b.len(),
{
    if b.len() == 0 {
        assert(a + b =~= a);
        assert(assoc_map(a).union_prefer_right(assoc_map(b)) =~= assoc_map(a));
    } else {
        let front = b.drop_last();
        lemma_assoc_concat(a, front);
        assert((a + b).drop_last() =~= a + front);
        assert((a + b).last() == b.last());
        assert(assoc_map(a + b) =~= assoc_map(a).union_prefer_right(assoc_map(b)));
    }
}

} // verus!
