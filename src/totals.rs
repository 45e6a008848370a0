//! Sums over the per-account ledgers, which the pool-wide totals must equal.
use crate::pool::Position;
use vstd::prelude::*;

verus! {

/// Sum of all share balances.
pub open spec fn share_total<K>(m: Map<K, i128>) -> int
    decreases m.dom().len(),
{
    if m.dom().finite() && m.dom().len() != 0 {
        let k = m.dom().choose();
        m[k] + share_total(m.remove(k))
    } else {
        0
    }
}

/// Sum of the debt of all positions.
pub open spec fn debt_total<K>(m: Map<K, Position>) -> int
    decreases m.dom().len(),
{
    if m.dom().finite() && m.dom().len() != 0 {
        let k = m.dom().choose();
        m[k].borrowed_amount + debt_total(m.remove(k))
    } else {
        0
    }
}

pub proof fn lemma_share_total_remove<K>(m: Map<K, i128>, k: K)
    requires
        m.dom().finite(),
        m.dom().contains(k),
    ensures
        share_total(m) == m[k] + share_total(m.remove(k)),
    decreases m.dom().len(),
{
    let j = m.dom().choose();
    if j != k {
        lemma_share_total_remove(m.remove(j), k);
        lemma_share_total_remove(m.remove(k), j);
        assert(m.remove(j).remove(k) =~= m.remove(k).remove(j));
    }
}

pub proof fn lemma_debt_total_remove<K>(m: Map<K, Position>, k: K)
    requires
        m.dom().finite(),
        m.dom().contains(k),
    ensures
        debt_total(m) == m[k].borrowed_amount + debt_total(m.remove(k)),
    decreases m.dom().len(),
{
    let j = m.dom().choose();
    if j != k {
        lemma_debt_total_remove(m.remove(j), k);
        lemma_debt_total_remove(m.remove(k), j);
        assert(m.remove(j).remove(k) =~= m.remove(k).remove(j));
    }
}

/// Writing `v` at `k` changes the sum by `v` less what `k` held before.
pub proof fn lemma_share_total_insert<K>(m: Map<K, i128>, k: K, v: i128)
    requires
        m.dom().finite(),
    ensures
        share_total(m.insert(k, v)) == share_total(m) + v - (if m.dom().contains(k) {
            m[k] as int
        } else {
            0
        }),
{
    lemma_share_total_remove(m.insert(k, v), k);
    if m.dom().contains(k) {
        lemma_share_total_remove(m, k);
        assert(m.insert(k, v).remove(k) =~= m.remove(k));
    } else {
        assert(m.insert(k, v).remove(k) =~= m);
    }
}

pub proof fn lemma_debt_total_insert<K>(m: Map<K, Position>, k: K, p: Position)
    requires
        m.dom().finite(),
    ensures
        debt_total(m.insert(k, p)) == debt_total(m) + p.borrowed_amount - (if m.dom().contains(k) {
            m[k].borrowed_amount as int
        } else {
            0
        }),
{
    lemma_debt_total_remove(m.insert(k, p), k);
    if m.dom().contains(k) {
        lemma_debt_total_remove(m, k);
        assert(m.insert(k, p).remove(k) =~= m.remove(k));
    } else {
        assert(m.insert(k, p).remove(k) =~= m);
    }
}

/// A sum of non-negative balances is at least each of them.
pub proof fn lemma_share_total_bounds<K>(m: Map<K, i128>, k: K)
    requires
        m.dom().finite(),
        forall|j: K| #[trigger] m.dom().contains(j) ==> m[j] >= 0,
    ensures
        share_total(m) >= 0,
        m.dom().contains(k) ==> share_total(m) >= m[k],
    decreases m.dom().len(),
{
    if m.dom().len() != 0 {
        let j = m.dom().choose();
        lemma_share_total_bounds(m.remove(j), k);
        if m.dom().contains(k) {
            lemma_share_total_remove(m, k);
            lemma_share_total_bounds(m.remove(k), k);
        }
    }
}

/// A sum of non-negative debts is at least each of them.
pub proof fn lemma_debt_total_bounds<K>(m: Map<K, Position>, k: K)
    requires
        m.dom().finite(),
        forall|j: K| #[trigger] m.dom().contains(j) ==> m[j].borrowed_amount >= 0,
    ensures
        debt_total(m) >= 0,
        m.dom().contains(k) ==> debt_total(m) >= m[k].borrowed_amount,
    decreases m.dom().len(),
{
    if m.dom().len() != 0 {
        let j = m.dom().choose();
        lemma_debt_total_bounds(m.remove(j), k);
        if m.dom().contains(k) {
            lemma_debt_total_remove(m, k);
            lemma_debt_total_bounds(m.remove(k), k);
        }
    }
}

} // verus!
