//! Sequences of key/value pairs in which no key stands twice, read as maps.
//!
//! The registry keeps its tables as vectors of entries. The functions here
//! say which map such a sequence stands for, and what inserting, replacing
//! and removing an entry does to that map.
use vstd::prelude::*;

verus! {

/// The pair at index `i` of `s` has the key `k`.
pub open spec fn key_at<K, V>(s: Seq<(K, V)>, i: int, k: K) -> bool {
    0 <= i < s.len() && s[i].0 == k
}

/// Some pair of `s` has the key `k`.
pub open spec fn has_key<K, V>(s: Seq<(K, V)>, k: K) -> bool {
    exists|i: int| #[trigger] key_at(s, i, k)
}

/// An index of `s` at which the key `k` stands, where there is one.
pub open spec fn position<K, V>(s: Seq<(K, V)>, k: K) -> int {
    choose|i: int| #[trigger] key_at(s, i, k)
}

/// No key stands at two indices of `s`.
pub open spec fn distinct_keys<K, V>(s: Seq<(K, V)>) -> bool {
    forall|i: int, j: int| 0 <= i < j < s.len() ==> s[i].0 != s[j].0
}

/// The map that `s` stands for: its keys, each with the value beside it.
pub open spec fn as_map<K, V>(s: Seq<(K, V)>) -> Map<K, V> {
    Map::new(|k: K| has_key(s, k), |k: K| s[position(s, k)].1)
}

/// With distinct keys, the pair at index `i` is the map's entry for its key.
pub proof fn lemma_entry<K, V>(s: Seq<(K, V)>, i: int)
    requires
        distinct_keys(s),
        0 <= i < s.len(),
    ensures
        has_key(s, s[i].0),
        position(s, s[i].0) == i,
        as_map(s).dom().contains(s[i].0),
        as_map(s)[s[i].0] == s[i].1,
{
    assert(key_at(s, i, s[i].0));
    let p = position(s, s[i].0);
    assert(key_at(s, p, s[i].0));
    if p < i {
        assert(s[p].0 != s[i].0);
    } else if i < p {
        assert(s[i].0 != s[p].0);
    }
}

/// A key of the map stands at its position in the sequence.
pub proof fn lemma_position<K, V>(s: Seq<(K, V)>, k: K)
    requires
        has_key(s, k),
    ensures
        0 <= position(s, k) < s.len(),
        s[position(s, k)].0 == k,
        as_map(s)[k] == s[position(s, k)].1,
{
    assert(key_at(s, position(s, k), k));
}

/// A key that the map lacks stands at no index.
pub proof fn lemma_absent<K, V>(s: Seq<(K, V)>, k: K)
    requires
        !has_key(s, k),
    ensures
        forall|i: int| 0 <= i < s.len() ==> (#[trigger] s[i]).0 != k,
{
    assert forall|i: int| 0 <= i < s.len() implies (#[trigger] s[i]).0 != k by {
        if s[i].0 == k {
            assert(key_at(s, i, k));
        }
    }
}

/// Putting a pair with a new key anywhere into the sequence inserts it into
/// the map.
pub proof fn lemma_insert<K, V>(s: Seq<(K, V)>, p: int, k: K, v: V)
    requires
        distinct_keys(s),
        !has_key(s, k),
        0 <= p <= s.len(),
    ensures
        distinct_keys(s.insert(p, (k, v))),
        as_map(s.insert(p, (k, v))) == as_map(s).insert(k, v),
{
    let t = s.insert(p, (k, v));
    lemma_absent(s, k);
    assert(distinct_keys(t));
    assert forall|q: K| #[trigger] has_key(t, q) == (q == k || has_key(s, q)) by {
        if has_key(t, q) && q != k {
            let i = position(t, q);
            assert(key_at(t, i, q));
            if i < p {
                assert(key_at(s, i, q));
            } else {
                assert(key_at(s, i - 1, q));
            }
        }
        if q == k {
            assert(key_at(t, p, q));
        }
        if has_key(s, q) {
            let i = position(s, q);
            assert(key_at(s, i, q));
            if i < p {
                assert(key_at(t, i, q));
            } else {
                assert(key_at(t, i + 1, q));
            }
        }
    }
    assert forall|q: K| #[trigger] has_key(t, q) implies as_map(t)[q] == as_map(s).insert(k, v)[q] by {
        if q == k {
            lemma_entry(t, p);
        } else {
            let i = position(s, q);
            assert(key_at(s, i, q));
            if i < p {
                lemma_entry(t, i);
            } else {
                lemma_entry(t, i + 1);
            }
        }
    }
    assert(as_map(t) =~= as_map(s).insert(k, v));
}

/// Replacing the value at index `i` replaces the map's value for that key.
pub proof fn lemma_update<K, V>(s: Seq<(K, V)>, i: int, v: V)
    requires
        distinct_keys(s),
        0 <= i < s.len(),
    ensures
        distinct_keys(s.update(i, (s[i].0, v))),
        as_map(s.update(i, (s[i].0, v))) == as_map(s).insert(s[i].0, v),
{
    let k = s[i].0;
    let t = s.update(i, (k, v));
    assert(distinct_keys(t));
    assert forall|q: K| #[trigger] has_key(t, q) == has_key(s, q) by {
        if has_key(t, q) {
            let j = position(t, q);
            assert(key_at(t, j, q));
            assert(key_at(s, j, q));
        }
        if has_key(s, q) {
            let j = position(s, q);
            assert(key_at(s, j, q));
            assert(key_at(t, j, q));
        }
    }
    lemma_entry(s, i);
    assert forall|q: K| #[trigger] has_key(t, q) implies as_map(t)[q] == as_map(s).insert(k, v)[q] by {
        let j = position(s, q);
        assert(key_at(s, j, q));
        lemma_entry(t, j);
        lemma_entry(s, j);
    }
    assert(as_map(t) =~= as_map(s).insert(k, v));
}

/// Taking the pair at index `i` out of the sequence removes its key from the
/// map.
pub proof fn lemma_remove<K, V>(s: Seq<(K, V)>, i: int)
    requires
        distinct_keys(s),
        0 <= i < s.len(),
    ensures
        distinct_keys(s.remove(i)),
        !has_key(s.remove(i), s[i].0),
        as_map(s.remove(i)) == as_map(s).remove(s[i].0),
{
    let k = s[i].0;
    let t = s.remove(i);
    assert(distinct_keys(t));
    assert forall|q: K| #[trigger] has_key(t, q) == (q != k && has_key(s, q)) by {
        if has_key(t, q) {
            let j = position(t, q);
            assert(key_at(t, j, q));
            if j < i {
                assert(key_at(s, j, q));
                assert(s[j].0 != s[i].0);
            } else {
                assert(key_at(s, j + 1, q));
                assert(s[i].0 != s[j + 1].0);
            }
        }
        if q != k && has_key(s, q) {
            let j = position(s, q);
            assert(key_at(s, j, q));
            if j < i {
                assert(key_at(t, j, q));
            } else {
                assert(key_at(t, j - 1, q));
            }
        }
    }
    assert forall|q: K| #[trigger] has_key(t, q) implies as_map(t)[q] == as_map(s)[q] by {
        let j = position(s, q);
        assert(key_at(s, j, q));
        lemma_entry(s, j);
        if j < i {
            lemma_entry(t, j);
        } else {
            lemma_entry(t, j - 1);
        }
    }
    assert(as_map(t) =~= as_map(s).remove(k));
}

/// With distinct keys, the map has as many keys as the sequence has pairs.
pub proof fn lemma_size<K, V>(s: Seq<(K, V)>)
    requires
        distinct_keys(s),
    ensures
        as_map(s).dom().finite(),
        as_map(s).dom().len() == s.len(),
{
    let keys = s.map_values(|p: (K, V)| p.0);
    assert(keys.no_duplicates());
    assert forall|k: K| keys.to_set().contains(k) == as_map(s).dom().contains(k) by {
        if keys.contains(k) {
            let i = choose|i: int| 0 <= i < keys.len() && keys[i] == k;
            assert(key_at(s, i, k));
        }
        if has_key(s, k) {
            let i = position(s, k);
            assert(key_at(s, i, k));
            assert(keys[i] == k);
        }
    }
    assert(keys.to_set() =~= as_map(s).dom());
    keys.unique_seq_to_set();
    vstd::seq_lib::seq_to_set_is_finite(keys);
}

} // verus!
