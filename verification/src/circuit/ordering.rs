//! Sorting rows by their key.

use vstd::multiset::Multiset;
use vstd::prelude::*;

verus! {

/// A row to be sorted: its key, and the two halves of its fingerprint.
pub type KeyedRow = (u64, u64, u64);

/// `a` may stand before `b`.
pub open spec fn in_order(a: u64, b: u64, descending: bool) -> bool {
    if descending {
        a >= b
    } else {
        a <= b
    }
}

/// The rows are sorted by key.
pub open spec fn sorted_rows(s: Seq<KeyedRow>, descending: bool) -> bool {
    forall|i: int, j: int|
        0 <= i < j < s.len() ==> in_order((#[trigger] s[i]).0, (#[trigger] s[j]).0, descending)
}

/// Tests whether `a` may stand before `b`.
fn may_precede(a: u64, b: u64, descending: bool) -> (r: bool)
    ensures
        r == in_order(a, b, descending),
{
    if descending {
        a >= b
    } else {
        a <= b
    }
}

/// The multiset of one more element.
proof fn taken(s: Seq<KeyedRow>, i: int)
    requires
        0 <= i < s.len(),
    ensures
        s.take(i + 1).to_multiset() == s.take(i).to_multiset().insert(s[i]),
{
    assert(s.take(i + 1) =~= s.take(i).push(s[i]));
    s.take(i).to_multiset_ensures();
}

/// Merges two sorted lists.
fn merge(left: &Vec<KeyedRow>, right: &Vec<KeyedRow>, descending: bool) -> (r: Vec<KeyedRow>)
    requires
        sorted_rows(left@, descending),
        sorted_rows(right@, descending),
    ensures
        sorted_rows(r@, descending),
        r@.to_multiset() == left@.to_multiset().add(right@.to_multiset()),
        r@.len() == left@.len() + right@.len(),
{
    let mut out: Vec<KeyedRow> = Vec::new();
    let mut i: usize = 0;
    let mut j: usize = 0;
    proof {
        assert(left@.take(0) =~= Seq::<KeyedRow>::empty());
        assert(right@.take(0) =~= Seq::<KeyedRow>::empty());
        Seq::<KeyedRow>::empty().to_multiset_ensures();
        assert(Seq::<KeyedRow>::empty().to_multiset() =~= Multiset::empty());
        assert(out@.to_multiset() =~= left@.take(0).to_multiset().add(
            right@.take(0).to_multiset(),
        ));
    }
    while i < left.len() || j < right.len()
        invariant
            i <= left@.len(),
            j <= right@.len(),
            out@.len() == i + j,
            sorted_rows(left@, descending),
            sorted_rows(right@, descending),
            sorted_rows(out@, descending),
            out@.to_multiset() == left@.take(i as int).to_multiset().add(
                right@.take(j as int).to_multiset(),
            ),
            forall|k: int|
                0 <= k < out@.len() && i < left@.len() ==> in_order(
                    (#[trigger] out@[k]).0,
                    left@[i as int].0,
                    descending,
                ),
            forall|k: int|
                0 <= k < out@.len() && j < right@.len() ==> in_order(
                    (#[trigger] out@[k]).0,
                    right@[j as int].0,
                    descending,
                ),
        decreases left@.len() - i + right@.len() - j,
    {
        let take_left: bool = if i < left.len() {
            if j < right.len() {
                may_precede(left[i].0, right[j].0, descending)
            } else {
                true
            }
        } else {
            false
        };
        proof {
            out@.to_multiset_ensures();
        }
        let ghost before = out@;
        if take_left {
            proof {
                taken(left@, i as int);
                assert(left@.take(i + 1).to_multiset().add(right@.take(j as int).to_multiset())
                    =~= before.to_multiset().insert(left@[i as int]));
            }
            out.push(left[i]);
            i = i + 1;
        } else {
            proof {
                taken(right@, j as int);
                assert(left@.take(i as int).to_multiset().add(right@.take(j + 1).to_multiset())
                    =~= before.to_multiset().insert(right@[j as int]));
            }
            out.push(right[j]);
            j = j + 1;
        }
    }
    assert(left@.take(left@.len() as int) =~= left@);
    assert(right@.take(right@.len() as int) =~= right@);
    out
}

/// Sorts rows by key, ascending or descending.
pub fn sort_rows(rows: Vec<KeyedRow>, descending: bool) -> (r: Vec<KeyedRow>)
    ensures
        sorted_rows(r@, descending),
        r@.to_multiset() == rows@.to_multiset(),
        r@.len() == rows@.len(),
    decreases rows@.len(),
{
    let n: usize = rows.len();
    if n <= 1 {
        return rows;
    }
    let mut left: Vec<KeyedRow> = rows;
    let right: Vec<KeyedRow> = left.split_off(n / 2);
    proof {
        assert(left@ + right@ =~= rows@);
        vstd::seq_lib::lemma_multiset_commutative(left@, right@);
    }
    let a: Vec<KeyedRow> = sort_rows(left, descending);
    let b: Vec<KeyedRow> = sort_rows(right, descending);
    merge(&a, &b, descending)
}

} // verus!
