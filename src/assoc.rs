//! Association lists: a sequence of key/value pairs with distinct keys,
//! read as a finite map. The storage of an account and the accounts of a
//! state are both held this way.
use vstd::prelude::*;
use vstd::set_lib::lemma_subset_equality;

verus! {

/// No key occurs twice in `s`.
pub open spec fn keys_unique<K, V>(s: Seq<(K, V)>) -> bool {
    forall|i: int, j: int| 0 <= i < j < s.len() ==> s[i].0 != s[j].0
}

/// Some pair of `s` has key `k`.
pub open spec fn has_key<K, V>(s: Seq<(K, V)>, k: K) -> bool {
    exists|i: int| 0 <= i < s.len() && s[i].0 == k
}

/// The map that `s` stands for: later pairs override earlier ones.
pub open spec fn map_of<K, V>(s: Seq<(K, V)>) -> Map<K, V>
    decreases s.len(),
{
    if s.len() == 0 {
        Map::empty()
    } else {
        map_of(s.drop_last()).insert(s.last().0, s.last().1)
    }
}

/// A key is in the map exactly when some pair carries it.
pub proof fn lemma_map_of_dom<K, V>(s: Seq<(K, V)>, k: K)
    ensures
        map_of(s).contains_key(k) <==> has_key(s, k),
    decreases s.len(),
{
    if s.len() > 0 {
        let d = s.drop_last();
        lemma_map_of_dom(d, k);
        if has_key(d, k) {
            let i = choose|i: int| 0 <= i < d.len() && d[i].0 == k;
            assert(s[i].0 == k);
        }
        if has_key(s, k) && s.last().0 != k {
            let i = choose|i: int| 0 <= i < s.len() && s[i].0 == k;
            assert(d[i].0 == k);
        }
    }
}

/// With distinct keys, each pair is what the map gives for its key.
pub proof fn lemma_map_of_index<K, V>(s: Seq<(K, V)>, i: int)
    requires
        keys_unique(s),
        0 <= i < s.len(),
    ensures
        map_of(s).contains_key(s[i].0),
        map_of(s)[s[i].0] == s[i].1,
    decreases s.len(),
{
    if i < s.len() - 1 {
        let d = s.drop_last();
        assert(d[i] == s[i]);
        lemma_map_of_index(d, i);
    }
}

/// With distinct keys, the map has exactly one key per pair.
pub proof fn lemma_map_of_len<K, V>(s: Seq<(K, V)>)
    requires
        keys_unique(s),
    ensures
        map_of(s).dom().finite(),
        map_of(s).dom().len() == s.len(),
    decreases s.len(),
{
    if s.len() > 0 {
        let d = s.drop_last();
        lemma_map_of_len(d);
        lemma_map_of_dom(d, s.last().0);
        if has_key(d, s.last().0) {
            let i = choose|i: int| 0 <= i < d.len() && d[i].0 == s.last().0;
            assert(s[i].0 == s[s.len() - 1].0);
        }
    }
}

/// Appending a pair inserts it into the map.
pub proof fn lemma_map_of_push<K, V>(s: Seq<(K, V)>, k: K, v: V)
    ensures
        map_of(s.push((k, v))) == map_of(s).insert(k, v),
        keys_unique(s) && !has_key(s, k) ==> keys_unique(s.push((k, v))),
{
    assert(s.push((k, v)).drop_last() =~= s);
}

/// Replacing the value of a pair overwrites that key in the map.
pub proof fn lemma_map_of_update<K, V>(s: Seq<(K, V)>, i: int, v: V)
    requires
        keys_unique(s),
        0 <= i < s.len(),
    ensures
        keys_unique(s.update(i, (s[i].0, v))),
        map_of(s.update(i, (s[i].0, v))) == map_of(s).insert(s[i].0, v),
    decreases s.len(),
{
    let k = s[i].0;
    let t = s.update(i, (k, v));
    let d = s.drop_last();
    if i == s.len() - 1 {
        assert(t.drop_last() =~= d);
        assert(map_of(t) =~= map_of(s).insert(k, v));
    } else {
        assert(t.drop_last() =~= d.update(i, (k, v)));
        assert(d[i] == s[i]);
        lemma_map_of_update(d, i, v);
        assert(s.last().0 != k);
        assert(map_of(t) =~= map_of(s).insert(k, v));
    }
}

/// Two sequences with distinct keys stand for the same map exactly when
/// they have the same length and every pair of the first is in the map of
/// the second.
pub proof fn lemma_map_of_eq<K, V>(s: Seq<(K, V)>, t: Seq<(K, V)>)
    requires
        keys_unique(s),
        keys_unique(t),
    ensures
        map_of(s) == map_of(t) <==> (s.len() == t.len() && forall|i: int|
            0 <= i < s.len() ==> map_of(t).contains_key(#[trigger] s[i].0) && map_of(t)[s[i].0]
                == s[i].1),
{
    lemma_map_of_len(s);
    lemma_map_of_len(t);
    assert forall|i: int| 0 <= i < s.len() implies map_of(s).contains_key(#[trigger] s[i].0)
        && map_of(s)[s[i].0] == s[i].1 by {
        lemma_map_of_index(s, i);
    }
    if s.len() == t.len() && forall|i: int|
        0 <= i < s.len() ==> map_of(t).contains_key(#[trigger] s[i].0) && map_of(t)[s[i].0]
            == s[i].1 {
        assert forall|k: K| #[trigger] map_of(s).dom().contains(k) implies map_of(
            t,
        ).dom().contains(k) && map_of(t)[k] == map_of(s)[k] by {
            lemma_map_of_dom(s, k);
            let i = choose|i: int| 0 <= i < s.len() && s[i].0 == k;
            assert(map_of(t).contains_key(s[i].0));
            lemma_map_of_index(s, i);
        }
        assert(map_of(s).dom().subset_of(map_of(t).dom()));
        lemma_subset_equality(map_of(s).dom(), map_of(t).dom());
        assert(map_of(s) =~= map_of(t));
    }
}

} // verus!
