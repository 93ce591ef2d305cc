//! The sum of the amounts held in a finite map, and how it changes when one
//! entry changes.

use vstd::prelude::*;
use crate::account::Balance;

verus! {

/// The sum of all amounts in `m`, a map with finitely many keys.
pub open spec fn sum_of<K>(m: Map<K, Balance>) -> nat
    decreases m.dom().len(),
    when m.dom().finite()
{
    if m.dom().len() == 0 {
        0
    } else {
        let k = m.dom().choose();
        m[k] as nat + sum_of(m.remove(k))
    }
}

/// The empty map sums to zero.
pub proof fn lemma_sum_of_empty<K>()
    ensures
        sum_of(Map::<K, Balance>::empty()) == 0,
{
}

/// Any one entry can be taken out of the sum.
pub proof fn lemma_sum_of_remove<K>(m: Map<K, Balance>, k: K)
    requires
        m.dom().finite(),
        m.contains_key(k),
    ensures
        sum_of(m) == m[k] + sum_of(m.remove(k)),
    decreases m.dom().len(),
{
    let c = m.dom().choose();
    if c != k {
        lemma_sum_of_remove(m.remove(c), k);
        lemma_sum_of_remove(m.remove(k), c);
        assert(m.remove(c).remove(k) =~= m.remove(k).remove(c));
    }
}

/// Writing an entry replaces its share of the sum.
pub proof fn lemma_sum_of_insert<K>(m: Map<K, Balance>, k: K, v: Balance)
    requires
        m.dom().finite(),
    ensures
        sum_of(m.insert(k, v)) == sum_of(m.remove(k)) + v,
        !m.contains_key(k) ==> sum_of(m.insert(k, v)) == sum_of(m) + v,
        m.contains_key(k) ==> sum_of(m.insert(k, v)) == sum_of(m) - m[k] + v,
{
    lemma_sum_of_remove(m.insert(k, v), k);
    assert(m.insert(k, v).remove(k) =~= m.remove(k));
    if m.contains_key(k) {
        lemma_sum_of_remove(m, k);
    } else {
        assert(m.remove(k) =~= m);
    }
}

/// No entry exceeds the sum, and neither do two entries together.
pub proof fn lemma_sum_of_bounds<K>(m: Map<K, Balance>, a: K, b: K)
    requires
        m.dom().finite(),
        m.contains_key(a),
    ensures
        m[a] <= sum_of(m),
        m.contains_key(b) && a != b ==> m[a] + m[b] <= sum_of(m),
{
    lemma_sum_of_remove(m, a);
    if m.contains_key(b) && a != b {
        lemma_sum_of_remove(m.remove(a), b);
    }
}

} // verus!
