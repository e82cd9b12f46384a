//! Key–value entry sequences.
//!
//! Both ledger tables are held as sequences of `(key, value)` entries with
//! pairwise-distinct keys, and a missing key reads as value 0. `map_of` gives
//! the finite map such a sequence represents; the lemmas here relate the two
//! ways a table changes — updating the entry that carries a key, or pushing
//! an entry for a fresh key — to `Map::insert` on that map.

use vstd::prelude::*;

verus! {

/// Does some entry of `s` carry the key `k`?
pub open spec fn has_key<K>(s: Seq<(K, u128)>, k: K) -> bool {
    exists|i: int| 0 <= i < s.len() && s[i].0 == k
}

/// The value stored under `k`: the first matching entry, or 0 when none matches.
pub open spec fn lookup<K>(s: Seq<(K, u128)>, k: K) -> u128
    decreases s.len(),
{
    if s.len() == 0 {
        0
    } else if s[0].0 == k {
        s[0].1
    } else {
        lookup(s.drop_first(), k)
    }
}

/// No two entries of `s` carry the same key.
pub open spec fn unique_keys<K>(s: Seq<(K, u128)>) -> bool {
    forall|i: int, j: int| 0 <= i < j < s.len() ==> s[i].0 != s[j].0
}

/// The finite map that the entry sequence represents.
pub open spec fn map_of<K>(s: Seq<(K, u128)>) -> Map<K, u128> {
    Map::new(|k: K| has_key(s, k), |k: K| lookup(s, k))
}

/// `lookup` returns the entry at `i` when no earlier entry carries its key.
pub proof fn lemma_lookup_at<K>(s: Seq<(K, u128)>, i: int)
    requires
        0 <= i < s.len(),
        forall|j: int| 0 <= j < i ==> s[j].0 != s[i].0,
    ensures
        lookup(s, s[i].0) == s[i].1,
    decreases i,
{
    if i > 0 {
        let t = s.drop_first();
        assert(t[i - 1] == s[i]);
        assert forall|j: int| 0 <= j < i - 1 implies (#[trigger] t[j]).0 != t[i - 1].0 by {
            assert(t[j] == s[j + 1]);
        }
        lemma_lookup_at(t, i - 1);
    }
}

/// `lookup` returns the unique entry that carries a key, under `unique_keys`.
pub proof fn lemma_lookup_unique_at<K>(s: Seq<(K, u128)>, i: int)
    requires
        unique_keys(s),
        0 <= i < s.len(),
    ensures
        lookup(s, s[i].0) == s[i].1,
{
    lemma_lookup_at(s, i);
}

/// A key carried by no entry reads as 0.
pub proof fn lemma_lookup_absent<K>(s: Seq<(K, u128)>, k: K)
    requires
        !has_key(s, k),
    ensures
        lookup(s, k) == 0,
    decreases s.len(),
{
    if s.len() > 0 {
        assert(s[0].0 != k);
        let t = s.drop_first();
        assert(!has_key(t, k)) by {
            if has_key(t, k) {
                let i = choose|i: int| 0 <= i < t.len() && t[i].0 == k;
                assert(s[i + 1] == t[i]);
            }
        }
        lemma_lookup_absent(t, k);
    }
}

/// Overwriting the value of the entry at `i` inserts under that entry's key.
pub proof fn lemma_map_of_update<K>(s: Seq<(K, u128)>, i: int, v: u128)
    requires
        unique_keys(s),
        0 <= i < s.len(),
    ensures
        unique_keys(s.update(i, (s[i].0, v))),
        map_of(s.update(i, (s[i].0, v))) == map_of(s).insert(s[i].0, v),
{
    let k0 = s[i].0;
    let s2 = s.update(i, (k0, v));
    assert forall|j: int| 0 <= j < s.len() implies s2[j].0 == s[j].0 by {}
    assert(unique_keys(s2));
    assert forall|x: K| #[trigger] has_key(s2, x) implies has_key(s, x) by {
        let j = choose|j: int| 0 <= j < s2.len() && s2[j].0 == x;
        assert(s[j].0 == x);
    }
    assert forall|x: K| #[trigger] has_key(s, x) implies has_key(s2, x) by {
        let j = choose|j: int| 0 <= j < s.len() && s[j].0 == x;
        assert(s2[j].0 == x);
    }
    assert(has_key(s, k0));
    assert forall|x: K| #[trigger] has_key(s2, x) implies lookup(s2, x) == map_of(s).insert(
        k0,
        v,
    )[x] by {
        if x == k0 {
            lemma_lookup_unique_at(s2, i);
        } else {
            let j = choose|j: int| 0 <= j < s2.len() && s2[j].0 == x;
            assert(j != i);
            lemma_lookup_unique_at(s2, j);
            lemma_lookup_unique_at(s, j);
        }
    }
    assert(map_of(s2) =~= map_of(s).insert(k0, v));
}

/// Appending an entry for a key carried by no entry inserts under that key.
pub proof fn lemma_map_of_push<K>(s: Seq<(K, u128)>, k: K, v: u128)
    requires
        unique_keys(s),
        !has_key(s, k),
    ensures
        unique_keys(s.push((k, v))),
        map_of(s.push((k, v))) == map_of(s).insert(k, v),
{
    let n = s.len() as int;
    let s2 = s.push((k, v));
    assert forall|i: int, j: int| 0 <= i < j < s2.len() implies s2[i].0 != s2[j].0 by {
        if j < n {
            assert(s2[i] == s[i] && s2[j] == s[j]);
        } else {
            assert(s2[j] == (k, v));
            assert(s2[i] == s[i]);
        }
    }
    assert forall|x: K| #[trigger] has_key(s2, x) implies has_key(s, x) || x == k by {
        let j = choose|j: int| 0 <= j < s2.len() && s2[j].0 == x;
        if j < n {
            assert(s[j].0 == x);
        }
    }
    assert forall|x: K| #[trigger] has_key(s, x) implies has_key(s2, x) by {
        let j = choose|j: int| 0 <= j < s.len() && s[j].0 == x;
        assert(s2[j].0 == x);
    }
    assert(s2[n].0 == k);
    assert(has_key(s2, k));
    assert(lookup(s2, k) == v) by {
        lemma_lookup_at(s2, n);
    }
    assert forall|x: K| #[trigger] has_key(s, x) && x != k implies lookup(s2, x) == lookup(
        s,
        x,
    ) by {
        let j = choose|j: int| 0 <= j < s.len() && s[j].0 == x;
        lemma_lookup_unique_at(s, j);
        assert(s2[j].0 == x);
        lemma_lookup_unique_at(s2, j);
    }
    assert(map_of(s2) =~= map_of(s).insert(k, v));
}

/// `lookup` agrees with the represented map, reading a missing key as 0.
pub proof fn lemma_lookup_map_of<K>(s: Seq<(K, u128)>, k: K)
    ensures
        map_of(s).dom().contains(k) ==> map_of(s)[k] == lookup(s, k),
        !map_of(s).dom().contains(k) ==> lookup(s, k) == 0,
{
    if !map_of(s).dom().contains(k) {
        lemma_lookup_absent(s, k);
    }
}

} // verus!
