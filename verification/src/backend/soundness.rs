//! What any proof shows of the rows inside it, whoever made it.

use vstd::prelude::*;

use crate::backend::outcomes::count_over;
use crate::backend::outcomes::dot_is_sum;
use crate::backend::outcomes::meets;
use crate::backend::outcomes::sum_over;
use crate::backend::outcomes::sum_over_same;
use crate::backend::outcomes::total_is_sum;
use crate::circuit::agg::pred_bit;
use crate::circuit::agg::AggCircuit;
use crate::circuit::agg::AGG_VALUES;
use crate::circuit::gadgets::column;
use crate::circuit::gadgets::total_of_flags;
use crate::circuit::group_by::group_columns;
use crate::circuit::group_by::group_step;
use crate::circuit::group_by::GroupByCircuit;
use crate::circuit::group_by::GROUP_QHASH;
use crate::circuit::group_by::GROUP_SNAP;
use crate::circuit::join::join_columns;
use crate::circuit::join::join_flags;
use crate::circuit::join::join_row;
use crate::circuit::join::JoinCircuit;
use crate::circuit::join::JoinColumns;
use crate::circuit::laws::agg_proof_shows;
use crate::circuit::laws::group_boundaries_exact;
use crate::circuit::laws::group_proof_shows;
use crate::circuit::laws::join_proof_shows;
use crate::circuit::laws::matched_count;
use crate::circuit::laws::matched_sum;
use crate::circuit::laws::matching_count;
use crate::circuit::laws::matching_sum;
use crate::circuit::laws::sort_proof_shows;
use crate::circuit::sort::sort_columns;
use crate::circuit::sort::sort_system_wf;
use crate::circuit::system::ConstraintSystem;
use crate::circuit::system::FieldHash;

verus! {

proof fn matching_counted(v: Seq<u64>, op: u64, val: u64, n: int)
    requires
        op <= 3,
    ensures
        matching_count(v, op, val, n) == count_over(n, |i: int| meets(op, v[i], val)),
        matching_sum(v, op, val, n) == sum_over(
            n,
            |i: int|
                if meets(op, v[i], val) {
                    v[i] as int
                } else {
                    0
                },
        ),
    decreases n,
{
    if n > 0 {
        matching_counted(v, op, val, n - 1);
        let x = v[n - 1];
        let b = pred_bit(op, x, val);
        if meets(op, x, val) {
            assert(x * b == x) by (nonlinear_arith)
                requires
                    b == 1,
            ;
        } else {
            assert(x * b == 0) by (nonlinear_arith)
                requires
                    b == 0,
            ;
        }
    }
}

/// An aggregation proof, whoever made it, shows the answer over the values that
/// hash to its first public input: the first of them are real, as many as the last
/// public input says, and the others are zero; count and sum are those of the real
/// values that meet the public predicate.
pub proof fn aggregate_proofs_are_sound(c: AggCircuit, w: Seq<u64>, h: FieldHash)
    requires
        c.wf(),
        c.system.satisfied(w, h),
    ensures
        ({
            let v = column(w, AGG_VALUES, 128);
            let pis = c.system.public_values(w);
            let n = pis[7] as int;
            let hit = |i: int| meets(pis[5], v[i], pis[6]);
            &&& pis.len() == 8
            &&& pis[0] == h(v)[0]
            &&& pis[5] <= 3
            &&& n <= 128
            &&& forall|i: int| n <= i < 128 ==> #[trigger] v[i] == 0
            &&& pis[3] == count_over(n, hit)
            &&& pis[2] == sum_over(
                n,
                |i: int|
                    if hit(i) {
                        v[i] as int
                    } else {
                        0
                    },
            ) % 0xFFFF_FFFF_0000_0001
            &&& pis[4] == h(seq![pis[2], pis[3]])[0]
        }),
{
    agg_proof_shows(c, w, h);
    let v = column(w, AGG_VALUES, 128);
    let pis = c.system.public_values(w);
    let n = pis[7] as int;
    let hit = |i: int| meets(pis[5], v[i], pis[6]);
    matching_counted(v, pis[5], pis[6], n);
    sum_over_same(
        n,
        |i: int|
            if meets(pis[5], v[i], pis[6]) {
                v[i] as int
            } else {
                0
            },
        |i: int|
            if hit(i) {
                v[i] as int
            } else {
                0
            },
    );
    sum_over_same(
        n,
        |i: int|
            if meets(pis[5], v[i], pis[6]) {
                1int
            } else {
                0int
            },
        |i: int|
            if hit(i) {
                1int
            } else {
                0int
            },
    );
}

proof fn matched_counted(k: JoinColumns, n: int)
    ensures
        matched_count(k, n) == count_over(n, |i: int| k.flags[i] == 1 && k.left[i] == k.right[i]),
        matched_sum(k, n) == sum_over(
            n,
            |i: int|
                if k.flags[i] == 1 && k.left[i] == k.right[i] {
                    k.vals[i] as int
                } else {
                    0
                },
        ),
    decreases n,
{
    if n > 0 {
        matched_counted(k, n - 1);
    }
}

proof fn flags_come_first(k: JoinColumns, i: int, j: int)
    requires
        forall|m: int| 0 <= m < 127 ==> #[trigger] join_flags(k, m),
        forall|m: int| 0 <= m < 128 ==> #[trigger] join_row(k, m),
        0 <= i <= j < 128,
        k.flags[j] == 1,
    ensures
        k.flags[i] == 1,
    decreases j - i,
{
    if i < j {
        flags_come_first(k, i + 1, j);
        assert(join_flags(k, i));
    }
}

/// A join proof, whoever made it, shows the answer over the keys that hash to its
/// first and fifth public inputs: real rows come first, and the others have no
/// keys; count and sum are those of the real rows whose keys agree, and the last
/// public input counts all others.
pub proof fn join_proofs_are_sound(c: JoinCircuit, w: Seq<u64>, h: FieldHash)
    requires
        c.wf(),
        c.system.satisfied(w, h),
    ensures
        ({
            let k = join_columns(w);
            let pis = c.system.public_values(w);
            let hit = |i: int| k.flags[i] == 1 && k.left[i] == k.right[i];
            &&& pis.len() == 7
            &&& pis[0] == h(k.left)[0]
            &&& pis[4] == h(k.right)[0]
            &&& forall|i: int| 0 <= i < 128 ==> #[trigger] k.flags[i] <= 1
            &&& forall|i: int, j: int|
                0 <= i <= j < 128 && #[trigger] k.flags[j] == 1 ==> #[trigger] k.flags[i] == 1
            &&& forall|i: int|
                0 <= i < 128 && #[trigger] k.flags[i] == 0 ==> k.left[i] == 0 && k.right[i] == 0
            &&& pis[3] == count_over(128, hit)
            &&& pis[2] == sum_over(
                128,
                |i: int|
                    if hit(i) {
                        k.vals[i] as int
                    } else {
                        0
                    },
            ) % 0xFFFF_FFFF_0000_0001
            &&& pis[6] == 128 - pis[3]
            &&& pis[5] == h(seq![pis[2], pis[3]])[0]
        }),
{
    join_proof_shows(c, w, h);
    let k = join_columns(w);
    let hit = |i: int| k.flags[i] == 1 && k.left[i] == k.right[i];
    matched_counted(k, 128);
    assert(forall|m: int| 0 <= m < 128 ==> #[trigger] join_row(k, m));
    assert(forall|m: int| 0 <= m < 127 ==> #[trigger] join_flags(k, m));
    assert forall|i: int| 0 <= i < 128 implies #[trigger] k.flags[i] <= 1 && (k.flags[i] == 0
        ==> k.left[i] == 0 && k.right[i] == 0) by {
        assert(join_row(k, i));
    }
    assert forall|i: int, j: int|
        0 <= i <= j < 128 && #[trigger] k.flags[j] == 1 implies #[trigger] k.flags[i] == 1 by {
        flags_come_first(k, i, j);
    }
    sum_over_same(
        128,
        |i: int|
            if k.flags[i] == 1 && k.left[i] == k.right[i] {
                k.vals[i] as int
            } else {
                0
            },
        |i: int|
            if hit(i) {
                k.vals[i] as int
            } else {
                0
            },
    );
    sum_over_same(
        128,
        |i: int|
            if k.flags[i] == 1 && k.left[i] == k.right[i] {
                1int
            } else {
                0int
            },
        |i: int|
            if hit(i) {
                1int
            } else {
                0int
            },
    );
}

/// A sort proof, whoever made it, counts and adds up the rows that it selects.
pub proof fn sort_proofs_count_their_rows(
    s: ConstraintSystem,
    descending: bool,
    w: Seq<u64>,
    h: FieldHash,
)
    requires
        sort_system_wf(s, descending),
        s.satisfied(w, h),
    ensures
        ({
            let c = sort_columns(w);
            let pis = s.public_values(w);
            &&& pis.len() == 7
            &&& pis[0] == h(c.ins)[0]
            &&& forall|i: int| 0 <= i < 128 ==> #[trigger] c.selectors[i] <= 1
            &&& pis[3] == sum_over(128, |i: int| c.selectors[i] as int)
            &&& pis[2] == sum_over(128, |i: int| c.outs[i] * c.selectors[i])
                % 0xFFFF_FFFF_0000_0001
            &&& pis[4] == h(seq![pis[2], pis[3]])[0]
            &&& pis[5] == h(c.in_lo)[0]
            &&& pis[6] == h(c.in_hi)[0]
        }),
{
    sort_proof_shows(s, descending, w, h);
    s.inputs_exist();
    s.runs_canonical(w, h);
    let c = sort_columns(w);
    assert(c.selectors.len() == 128);
    assert(forall|i: int| 0 <= i < 128 ==> #[trigger] c.selectors[i] <= 1);
    total_of_flags(c.selectors, 128);
    total_is_sum(c.selectors, 128);
    dot_is_sum(c.outs, c.selectors, 128);
}

/// A grouping proof, whoever made it, sums up each run of equal keys from its
/// start, and flags exactly the rows after which the key changes. Real rows come
/// last, and the others have neither key nor value.
pub proof fn group_proofs_are_sound(c: GroupByCircuit, w: Seq<u64>, h: FieldHash)
    requires
        c.wf(),
        c.system.satisfied(w, h),
    ensures
        ({
            let k = group_columns(w);
            let pis = c.system.public_values(w);
            &&& pis.len() == 8
            &&& pis[0] == h(k.ins)[0]
            &&& pis[7] == h(k.vals)[0]
            &&& pis[3] <= 128
            &&& forall|i: int|
                0 <= i < 128 - pis[3] ==> #[trigger] k.outs[i] == 0 && k.vals[i] == 0
            &&& pis[2] == sum_over(128, |i: int| k.vals[i] as int) % 0xFFFF_FFFF_0000_0001
            &&& pis[5] == h(k.outs + k.sums + k.flags)[0]
            &&& pis[6] == h(seq![pis[2], pis[3]])[0]
            &&& k.sums[0] == k.vals[0]
            &&& forall|i: int|
                0 <= i < 127 ==> #[trigger] k.sums[i + 1] == if k.outs[i] == k.outs[i + 1] {
                    (k.sums[i] + k.vals[i + 1]) % 0xFFFF_FFFF_0000_0001
                } else {
                    k.vals[i + 1] as int
                }
            &&& forall|i: int|
                0 <= i < 127 ==> #[trigger] k.flags[i] == if k.outs[i] == k.outs[i + 1] {
                    0u64
                } else {
                    1u64
                }
        }),
{
    group_proof_shows(c, w, h);
    c.system.inputs_exist();
    c.system.runs_canonical(w, h);
    let k = group_columns(w);
    total_is_sum(k.vals, 128);
    let snap = w[GROUP_SNAP as int];
    let qhash = w[GROUP_QHASH as int];
    assert forall|i: int| 0 <= i < 127 implies #[trigger] k.flags[i] == if k.outs[i] == k.outs[i
        + 1] {
        0u64
    } else {
        1u64
    } by {
        group_boundaries_exact(h, k, snap, qhash, i);
    }
    assert forall|i: int| 0 <= i < 127 implies #[trigger] k.sums[i + 1] == if k.outs[i]
        == k.outs[i + 1] {
        (k.sums[i] + k.vals[i + 1]) % 0xFFFF_FFFF_0000_0001
    } else {
        k.vals[i + 1] as int
    } by {
        assert(group_step(k, i));
        group_boundaries_exact(h, k, snap, qhash, i);
    }
}

} // verus!
