//! Association lists: vectors of key-value pairs whose keys are distinct,
//! viewed as finite maps. They stand for the hash maps of the library, so
//! that their contents and the order in which they are walked are fixed.

use vstd::prelude::*;

use crate::text::str_eq;

verus! {

/// No two entries of `s` have the same key.
pub open spec fn keys_unique<K: View, V>(s: Seq<(K, V)>) -> bool {
    forall|i: int, j: int|
        0 <= i < s.len() && 0 <= j < s.len() && i != j ==> #[trigger] s[i].0@ != #[trigger] s[j].0@
}

/// Some entry of `s` has the key `k`.
pub open spec fn has_key<K: View, V>(s: Seq<(K, V)>, k: K::V) -> bool {
    exists|i: int| 0 <= i < s.len() && #[trigger] s[i].0@ == k
}

/// The map that `s` stands for: each key to the value of its last entry.
pub open spec fn assoc_map<K: View, V>(s: Seq<(K, V)>) -> Map<K::V, V>
    decreases s.len(),
{
    if s.len() == 0 {
        Map::empty()
    } else {
        assoc_map(s.drop_last()).insert(s.last().0@, s.last().1)
    }
}

/// The keys of `s`, as a map, are exactly the keys of its entries.
pub proof fn lemma_assoc_map_dom<K: View, V>(s: Seq<(K, V)>, k: K::V)
    ensures
        assoc_map(s).dom().contains(k) <==> has_key(s, k),
    decreases s.len(),
{
    if s.len() > 0 {
        lemma_assoc_map_dom(s.drop_last(), k);
        if has_key(s.drop_last(), k) {
            let i = choose|i: int| 0 <= i < s.drop_last().len() && #[trigger] s.drop_last()[i].0@ == k;
            assert(s[i].0@ == k);
        }
        if has_key(s, k) && s.last().0@ != k {
            let i = choose|i: int| 0 <= i < s.len() && #[trigger] s[i].0@ == k;
            assert(s.drop_last()[i].0@ == k);
        }
        if s.last().0@ == k {
            assert(s[s.len() - 1].0@ == k);
        }
    }
}

/// With distinct keys, the map gives each entry's value for its key.
pub proof fn lemma_assoc_map_index<K: View, V>(s: Seq<(K, V)>, i: int)
    requires
        keys_unique(s),
        0 <= i < s.len(),
    ensures
        assoc_map(s).dom().contains(s[i].0@),
        assoc_map(s)[s[i].0@] == s[i].1,
    decreases s.len(),
{
    if i < s.len() - 1 {
        assert(s.drop_last()[i] == s[i]);
        assert(s[i].0@ != s[s.len() - 1].0@);
        lemma_assoc_map_index(s.drop_last(), i);
    }
}

/// Replacing the value of an entry replaces the value of its key.
pub proof fn lemma_assoc_map_update<K: View, V>(s: Seq<(K, V)>, i: int, e: (K, V))
    requires
        keys_unique(s),
        0 <= i < s.len(),
        e.0@ == s[i].0@,
    ensures
        keys_unique(s.update(i, e)),
        assoc_map(s.update(i, e)) == assoc_map(s).insert(e.0@, e.1),
    decreases s.len(),
{
    let t = s.update(i, e);
    assert forall|a: int, b: int|
        0 <= a < t.len() && 0 <= b < t.len() && a != b implies #[trigger] t[a].0@ != #[trigger] t[b].0@ by {
        assert(s[a].0@ != s[b].0@);
    }
    if i == s.len() - 1 {
        assert(t.drop_last() == s.drop_last());
    } else {
        assert(t.drop_last() == s.drop_last().update(i, e));
        assert(s.drop_last()[i] == s[i]);
        lemma_assoc_map_update(s.drop_last(), i, e);
        assert(s[i].0@ != s.last().0@);
        assert(assoc_map(t) =~= assoc_map(s).insert(e.0@, e.1));
    }
}

/// Adding an entry with a new key keeps the keys distinct.
pub proof fn lemma_keys_unique_push<K: View, V>(s: Seq<(K, V)>, e: (K, V))
    requires
        keys_unique(s),
        !has_key(s, e.0@),
    ensures
        keys_unique(s.push(e)),
{
    let t = s.push(e);
    assert forall|a: int, b: int|
        0 <= a < t.len() && 0 <= b < t.len() && a != b implies #[trigger] t[a].0@ != #[trigger] t[b].0@ by {
        if a == s.len() {
            assert(t[b] == s[b]);
        } else if b == s.len() {
            assert(t[a] == s[a]);
        } else {
            assert(t[a] == s[a] && t[b] == s[b]);
        }
    }
}

/// Some entry of the sequence `s` of plain pairs has the key `k`.
pub open spec fn seq_has_key<K, V>(s: Seq<(K, V)>, k: K) -> bool {
    exists|i: int| 0 <= i < s.len() && #[trigger] s[i].0 == k
}

/// The position of an entry of `s` with the key `k` (meaningful where there is one).
pub open spec fn seq_key_pos<K, V>(s: Seq<(K, V)>, k: K) -> int {
    choose|i: int| 0 <= i < s.len() && #[trigger] s[i].0 == k
}

/// No two entries of the sequence `s` of plain pairs have the same key.
pub open spec fn seq_keys_distinct<K, V>(s: Seq<(K, V)>) -> bool {
    forall|i: int, j: int|
        0 <= i < s.len() && 0 <= j < s.len() && i != j ==> #[trigger] s[i].0 != #[trigger] s[j].0
}

/// With distinct keys, the entry found for a key is the one at `i`.
pub proof fn lemma_seq_key_pos<K, V>(s: Seq<(K, V)>, i: int)
    requires
        seq_keys_distinct(s),
        0 <= i < s.len(),
    ensures
        seq_has_key(s, s[i].0),
        seq_key_pos(s, s[i].0) == i,
{
    assert(s[i].0 == s[i].0);
    let j = seq_key_pos(s, s[i].0);
    if j != i {
        assert(s[j].0 != s[i].0);
    }
}

/// Adding an entry with a new key keeps the keys of a plain sequence distinct.
pub proof fn lemma_seq_keys_distinct_push<K, V>(s: Seq<(K, V)>, e: (K, V))
    requires
        seq_keys_distinct(s),
        !seq_has_key(s, e.0),
    ensures
        seq_keys_distinct(s.push(e)),
{
    let t = s.push(e);
    assert forall|a: int, b: int|
        0 <= a < t.len() && 0 <= b < t.len() && a != b implies #[trigger] t[a].0 != #[trigger] t[b].0 by {
        if a == s.len() {
            assert(t[b] == s[b]);
        } else if b == s.len() {
            assert(t[a] == s[a]);
        } else {
            assert(t[a] == s[a] && t[b] == s[b]);
        }
    }
}

/// Replacing an entry by one with the same key keeps the keys distinct.
pub proof fn lemma_seq_keys_distinct_update<K, V>(s: Seq<(K, V)>, i: int, e: (K, V))
    requires
        seq_keys_distinct(s),
        0 <= i < s.len(),
        e.0 == s[i].0,
    ensures
        seq_keys_distinct(s.update(i, e)),
{
    let t = s.update(i, e);
    assert forall|a: int, b: int|
        0 <= a < t.len() && 0 <= b < t.len() && a != b implies #[trigger] t[a].0 != #[trigger] t[b].0 by {
        assert(s[a].0 != s[b].0);
    }
}

/// The value of key `k` in the sequence `s` of plain pairs.
pub open spec fn seq_get<K, V>(s: Seq<(K, V)>, k: K) -> Option<V> {
    if seq_has_key(s, k) {
        Some(s[seq_key_pos(s, k)].1)
    } else {
        None
    }
}

/// With distinct keys, each entry's key gets its value.
pub proof fn lemma_seq_get_index<K, V>(s: Seq<(K, V)>, i: int)
    requires
        seq_keys_distinct(s),
        0 <= i < s.len(),
    ensures
        seq_get(s, s[i].0) == Some(s[i].1),
{
    lemma_seq_key_pos(s, i);
}

/// Adding an entry with a new key gives that key its value and keeps the others.
pub proof fn lemma_seq_get_push<K, V>(s: Seq<(K, V)>, x: (K, V), k: K)
    requires
        seq_keys_distinct(s),
        !seq_has_key(s, x.0),
    ensures
        seq_keys_distinct(s.push(x)),
        seq_get(s.push(x), k) == if k == x.0 {
            Some(x.1)
        } else {
            seq_get(s, k)
        },
{
    let t = s.push(x);
    lemma_seq_keys_distinct_push(s, x);
    if k == x.0 {
        lemma_seq_key_pos(t, s.len() as int);
    } else {
        if seq_has_key(s, k) {
            let i = seq_key_pos(s, k);
            assert(t[i] == s[i]);
            lemma_seq_key_pos(t, i);
        }
        if seq_has_key(t, k) {
            let i = choose|i: int| 0 <= i < t.len() && #[trigger] t[i].0 == k;
            assert(s[i].0 == k);
        }
    }
}

/// Replacing an entry by one with the same key gives that key the new value
/// and keeps the others.
pub proof fn lemma_seq_get_update<K, V>(s: Seq<(K, V)>, i: int, x: (K, V), k: K)
    requires
        seq_keys_distinct(s),
        0 <= i < s.len(),
        x.0 == s[i].0,
    ensures
        seq_keys_distinct(s.update(i, x)),
        seq_get(s.update(i, x), k) == if k == x.0 {
            Some(x.1)
        } else {
            seq_get(s, k)
        },
{
    let t = s.update(i, x);
    lemma_seq_keys_distinct_update(s, i, x);
    if k == x.0 {
        lemma_seq_key_pos(t, i);
    } else {
        if seq_has_key(s, k) {
            let j = seq_key_pos(s, k);
            assert(t[j] == s[j]);
            lemma_seq_key_pos(t, j);
        }
        if seq_has_key(t, k) {
            let j = choose|j: int| 0 <= j < t.len() && #[trigger] t[j].0 == k;
            assert(s[j].0 == k);
        }
    }
}

/// The value of the first entry of `s` whose key is `k`: what a lookup in
/// the map that `s` stands for gives.
pub open spec fn assoc_find<K: View, V>(s: Seq<(K, V)>, k: K::V) -> Option<V>
    decreases s.len(),
{
    if s.len() == 0 {
        None
    } else if s[0].0@ == k {
        Some(s[0].1)
    } else {
        assoc_find(s.drop_first(), k)
    }
}

/// The first entry with a key gives the lookup's value.
pub proof fn lemma_assoc_find_first<K: View, V>(s: Seq<(K, V)>, k: K::V, i: int)
    requires
        0 <= i < s.len(),
        s[i].0@ == k,
        forall|j: int| 0 <= j < i ==> #[trigger] s[j].0@ != k,
    ensures
        assoc_find(s, k) == Some(s[i].1),
    decreases s.len(),
{
    if i > 0 {
        assert forall|j: int| 0 <= j < i - 1 implies #[trigger] s.drop_first()[j].0@ != k by {
            assert(s.drop_first()[j] == s[j + 1]);
        }
        lemma_assoc_find_first(s.drop_first(), k, i - 1);
    }
}

/// Without an entry for a key, the lookup finds nothing.
pub proof fn lemma_assoc_find_none<K: View, V>(s: Seq<(K, V)>, k: K::V)
    requires
        !has_key(s, k),
    ensures
        assoc_find(s, k) is None,
    decreases s.len(),
{
    if s.len() > 0 {
        assert(s[0].0@ != k);
        assert forall|j: int| 0 <= j < s.drop_first().len() implies #[trigger] s.drop_first()[j].0@ != k by {
            assert(s.drop_first()[j] == s[j + 1]);
        }
        lemma_assoc_find_none(s.drop_first(), k);
    }
}

/// The position of the entry of `entries` whose key is `key`, if any.
pub fn find_key<V>(entries: &Vec<(String, V)>, key: &str) -> (r: Option<usize>)
    ensures
        match r {
            Some(i) => i < entries@.len() && entries@[i as int].0@ == key@ && forall|j: int|
                0 <= j < i ==> #[trigger] entries@[j].0@ != key@,
            None => !has_key(entries@, key@),
        },
{
    let mut i: usize = 0;
    while i < entries.len()
        invariant
            i <= entries@.len(),
            forall|j: int| 0 <= j < i ==> #[trigger] entries@[j].0@ != key@,
        decreases entries@.len() - i,
    {
        if str_eq(entries[i].0.as_str(), key) {
            return Some(i);
        }
        i += 1;
    }
    None
}

} // verus!
