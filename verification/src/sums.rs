//! Summation of the values of a finite map, and how the sum changes when an
//! entry is inserted or removed. The conservation invariant of the ledger —
//! the recorded balances always total the fixed supply — is stated with
//! `map_sum` over the balance table.

use vstd::prelude::*;

verus! {

/// The sum of all values of a finite map (unspecified for infinite maps).
pub open spec fn map_sum<K>(m: Map<K, u128>) -> int
    decreases m.dom().len(),
        when m.dom().finite()
        via map_sum_decreases::<K>
{
    if m.dom().finite() && m.dom().len() > 0 {
        let k = m.dom().choose();
        m[k] + map_sum(m.remove(k))
    } else {
        0
    }
}

#[via_fn]
proof fn map_sum_decreases<K>(m: Map<K, u128>) {
    if m.dom().finite() && m.dom().len() > 0 {
        lemma_nonempty_dom_choose(m);
    }
}

/// A finite, non-empty domain contains the key that `choose` picks.
proof fn lemma_nonempty_dom_choose<K>(m: Map<K, u128>)
    requires
        m.dom().finite(),
        m.dom().len() > 0,
    ensures
        m.dom().contains(m.dom().choose()),
{
    if !exists|k: K| m.dom().contains(k) {
        assert(m.dom() =~= Set::<K>::empty());
    }
}

/// Splitting off any one entry: its value plus the sum of the rest.
pub proof fn lemma_map_sum_remove<K>(m: Map<K, u128>, k: K)
    requires
        m.dom().finite(),
        m.dom().contains(k),
    ensures
        map_sum(m) == m[k] + map_sum(m.remove(k)),
    decreases m.dom().len(),
{
    let k0 = m.dom().choose();
    assert(m.dom().contains(k0)) by {
        lemma_nonempty_dom_choose(m);
    }
    if k0 == k {
    } else {
        let m1 = m.remove(k0);
        let m2 = m.remove(k);
        lemma_map_sum_remove(m1, k);
        lemma_map_sum_remove(m2, k0);
        assert(m1.remove(k) =~= m2.remove(k0));
    }
}

/// Inserting replaces the key's old contribution (0 when absent) by `v`.
pub proof fn lemma_map_sum_insert<K>(m: Map<K, u128>, k: K, v: u128)
    requires
        m.dom().finite(),
    ensures
        map_sum(m.insert(k, v)) == map_sum(m) + v - (if m.dom().contains(k) {
            m[k] as int
        } else {
            0
        }),
{
    let mi = m.insert(k, v);
    lemma_map_sum_remove(mi, k);
    if m.dom().contains(k) {
        lemma_map_sum_remove(m, k);
        assert(mi.remove(k) =~= m.remove(k));
    } else {
        assert(mi.remove(k) =~= m);
    }
}

/// The values are unsigned, so the sum is never negative.
pub proof fn lemma_map_sum_nonneg<K>(m: Map<K, u128>)
    requires
        m.dom().finite(),
    ensures
        map_sum(m) >= 0,
    decreases m.dom().len(),
{
    if m.dom().len() > 0 {
        let k = m.dom().choose();
        assert(m.dom().contains(k)) by {
            lemma_nonempty_dom_choose(m);
        }
        lemma_map_sum_nonneg(m.remove(k));
    }
}

/// No single entry exceeds the sum of them all.
pub proof fn lemma_map_sum_entry_bound<K>(m: Map<K, u128>, k: K)
    requires
        m.dom().finite(),
    ensures
        (if m.dom().contains(k) {
            m[k] as int
        } else {
            0
        }) <= map_sum(m),
{
    if m.dom().contains(k) {
        lemma_map_sum_remove(m, k);
        lemma_map_sum_nonneg(m.remove(k));
    } else {
        lemma_map_sum_nonneg(m);
    }
}

} // verus!
