//! The sum of the values of a finite map, and how it moves when one key changes.
//!
//! The aggregate Value-at-Risk of a book is this sum taken over the book's
//! view. It is a function of the map alone: no order of the entries enters it.
use vstd::prelude::*;

verus! {

/// The sum of all values of `m`. Meaningful for maps with a finite domain.
pub open spec fn sum_of<K>(m: Map<K, int>) -> int
    decreases m.dom().len(),
    when m.dom().finite()
{
    if m.dom().len() == 0 {
        0
    } else {
        let k = m.dom().choose();
        m[k] + sum_of(m.remove(k))
    }
}

/// The empty map sums to zero.
pub proof fn lemma_sum_empty<K>()
    ensures
        sum_of(Map::<K, int>::empty()) == 0,
{
}

/// Any key may be split off: the sum is that key's value plus the sum of the
/// rest.
pub proof fn lemma_sum_split<K>(m: Map<K, int>, key: K)
    requires
        m.dom().finite(),
        m.contains_key(key),
    ensures
        sum_of(m) == m[key] + sum_of(m.remove(key)),
    decreases m.dom().len(),
{
    let k = m.dom().choose();
    if k != key {
        let rest = m.remove(k);
        let other = m.remove(key);
        m.lemma_remove_key_len(k);
        m.lemma_remove_key_len(key);
        lemma_sum_split(rest, key);
        lemma_sum_split(other, k);
        assert(rest.remove(key) =~= other.remove(k));
    }
}

/// Writing `value` under `key` replaces that key's share of the sum, if it had
/// one, by `value`.
pub proof fn lemma_sum_insert<K>(m: Map<K, int>, key: K, value: int)
    requires
        m.dom().finite(),
    ensures
        m.insert(key, value).dom().finite(),
        sum_of(m.insert(key, value)) == sum_of(m) + value - share(m, key),
{
    let after = m.insert(key, value);
    lemma_sum_split(after, key);
    assert(after.remove(key) =~= m.remove(key));
    if m.contains_key(key) {
        lemma_sum_split(m, key);
    } else {
        assert(m.remove(key) =~= m);
    }
}

/// Removing `key` takes that key's share, if it had one, out of the sum.
pub proof fn lemma_sum_remove<K>(m: Map<K, int>, key: K)
    requires
        m.dom().finite(),
    ensures
        m.remove(key).dom().finite(),
        sum_of(m.remove(key)) == sum_of(m) - share(m, key),
{
    if m.contains_key(key) {
        lemma_sum_split(m, key);
    } else {
        assert(m.remove(key) =~= m);
    }
}

/// What `key` contributes to the sum of `m`: its value, or nothing if `m` does
/// not hold it.
pub open spec fn share<K>(m: Map<K, int>, key: K) -> int {
    if m.contains_key(key) {
        m[key]
    } else {
        0
    }
}

} // verus!
