//! Sums over finite maps of counts.

use vstd::prelude::*;

verus! {

/// The sum of the values of a finite map.
pub open spec fn sum_values<K>(m: Map<K, nat>) -> nat
    decreases m.dom().len(),
    when m.dom().finite()
{
    if m.dom().len() == 0 {
        0
    } else {
        let k = m.dom().choose();
        m[k] + sum_values(m.remove(k))
    }
}

/// The sum can be taken starting from any key: it is that key's value plus
/// the sum of the rest.
pub proof fn lemma_sum_split<K>(m: Map<K, nat>, k: K)
    requires
        m.dom().finite(),
        m.dom().contains(k),
    ensures
        sum_values(m) == m[k] + sum_values(m.remove(k)),
    decreases m.dom().len(),
{
    let c = m.dom().choose();
    if c != k {
        let rest_c = m.remove(c);
        let rest_k = m.remove(k);
        lemma_sum_split(rest_c, k);
        lemma_sum_split(rest_k, c);
        assert(rest_c.remove(k) =~= rest_k.remove(c));
    }
}

/// Setting the value of `k` to `v` changes the sum by the difference between
/// `v` and what `k` held before, an absent key holding nothing.
pub proof fn lemma_sum_insert<K>(m: Map<K, nat>, k: K, v: nat)
    requires
        m.dom().finite(),
    ensures
        m.dom().contains(k) ==> sum_values(m.insert(k, v)) + m[k] == sum_values(m) + v,
        !m.dom().contains(k) ==> sum_values(m.insert(k, v)) == sum_values(m) + v,
{
    let n = m.insert(k, v);
    lemma_sum_split(n, k);
    assert(n.remove(k) =~= m.remove(k));
    if m.dom().contains(k) {
        lemma_sum_split(m, k);
    } else {
        assert(m.remove(k) =~= m);
    }
}

/// Removing `k` takes its value off the sum.
pub proof fn lemma_sum_remove<K>(m: Map<K, nat>, k: K)
    requires
        m.dom().finite(),
        m.dom().contains(k),
    ensures
        sum_values(m.remove(k)) + m[k] == sum_values(m),
{
    lemma_sum_split(m, k);
}

} // verus!
