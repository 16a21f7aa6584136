//! From rows to proofs: what is built of a snapshot is proved, and what is proved
//! is the answer over its rows.

use vstd::prelude::*;

use crate::backend::laws::built_aggregate_accepted;
use crate::backend::laws::built_join_accepted;
use crate::backend::outcomes::aggregate_counts_cells;
use crate::backend::outcomes::cell;
use crate::backend::outcomes::cells_below;
use crate::backend::outcomes::cells_in_order;
use crate::backend::outcomes::column_cells;
use crate::backend::outcomes::count_over;
use crate::backend::outcomes::group_accepted_cells;
use crate::backend::outcomes::group_counts_cells;
use crate::backend::outcomes::groups_are_different_keys;
use crate::backend::outcomes::hashed_column;
use crate::backend::outcomes::height;
use crate::backend::outcomes::join_counts_matches;
use crate::backend::outcomes::keys_agree;
use crate::backend::outcomes::leading_element;
use crate::backend::outcomes::leading_word;
use crate::backend::outcomes::meets;
use crate::backend::outcomes::row_cells;
use crate::backend::outcomes::sort_accepted_cells;
use crate::backend::outcomes::sort_counts_cells;
use crate::backend::outcomes::sum_over;
use crate::backend::outcomes::sum_over_same;
use crate::backend::outcomes::taken;
use crate::backend::outcomes::three_columns;
use crate::backend::plans::requests_are_answered;
use crate::backend::plonky2::answered;
use crate::backend::plonky2::PlonkyCircuit;
use crate::circuit::inputs::CircuitWitness;
use crate::circuit::system::is_field_hash;
use crate::circuit::system::FieldHash;
use crate::circuit::traces::column_is;
use crate::circuit::traces::digest_of;
use crate::circuit::traces::elements_of;
use crate::circuit::traces::groups_are_traced;
use crate::circuit::traces::kept_rows_are_traced;
use crate::circuit::traces::key_of;
use crate::circuit::traces::row_triples;
use crate::circuit::traces::rows_before;
use crate::circuit::traces::rows_stand_in_order;
use crate::circuit::traces::sorts_are_traced;
use crate::circuit::traces::trace_is_of_its_rows;
use crate::circuit::witness::all_rows;
use crate::circuit::witness::built;
use crate::circuit::witness::root_op;
use crate::circuit::witness::WitnessTrace;
use crate::commitment::laws::key_is_the_first_word;
use crate::commitment::laws::word_at;
use crate::database::StagedChunk;
use crate::query::laws::groups;
use crate::query::laws::texts_name_keys;
use crate::query::proof_plan::ProofOperator;
use crate::query::proof_plan::ProofPlan;
use crate::types::QueryId;
use crate::types::SnapshotId;
use crate::types::ZkResult;

verus! {

/// The root of a witness that was built holds the hash of the keys.
proof fn root_holds_the_hash(
    h: FieldHash,
    query_id: QueryId,
    snapshot_id: SnapshotId,
    plan: ProofPlan,
    chunks: Seq<StagedChunk>,
    t: WitnessTrace,
    columns: Seq<crate::circuit::witness::ColumnTrace>,
)
    requires
        is_field_hash(h),
        built(h, query_id, snapshot_id, plan, chunks, t),
        columns.len() > 0,
        column_is(columns[0], all_rows(chunks).len() as int, key_of(all_rows(chunks))),
    ensures
        leading_element(t.snapshot_root@) == h(hashed_column(columns, 0))[0],
        leading_word(t.snapshot_root@) == h(hashed_column(columns, 0))[0],
{
    let rows = all_rows(chunks);
    trace_is_of_its_rows(h, query_id, snapshot_id, plan, chunks, t);
    let hashed = Seq::new(
        128,
        |i: int|
            if i < rows.len() {
                (word_at(rows[i], 0) % 0xFFFF_FFFF_0000_0001) as u64
            } else {
                0
            },
    );
    assert(hashed =~= hashed_column(columns, 0)) by {
        assert forall|i: int| 0 <= i < 128 implies hashed[i] == hashed_column(columns, 0)[i] by {
            if i < rows.len() {
                assert(columns[0].values@[i].0 == key_of(rows)(i));
                assert(cell(columns, 0, i) == word_at(rows[i], 0));
            } else {
                assert(cell(columns, 0, i) == 0);
            }
        }
    }
    assert(word_at(t.snapshot_root@, 0) == leading_word(t.snapshot_root@));
    assert(h(hashed)[0] < 0xFFFF_FFFF_0000_0001);
}

/// A count or sum over a snapshot is proved, and right: over the first 128 rows
/// of all chunks, the count is the number of rows, and the sum is that of their
/// keys, in the field.
#[verifier::rlimit(40)]
pub proof fn aggregates_are_proved(
    h: FieldHash,
    query_id: QueryId,
    snapshot_id: SnapshotId,
    plan: ProofPlan,
    chunks: Seq<StagedChunk>,
    t: WitnessTrace,
    circuit: PlonkyCircuit,
    r: ZkResult<CircuitWitness>,
)
    requires
        is_field_hash(h),
        built(h, query_id, snapshot_id, plan, chunks, t),
        !(root_op(plan) is Sort),
        !groups(root_op(plan)),
        circuit is Agg,
        leading_word(t.snapshot_root@) != 0,
        answered(h, false, circuit, t, r),
    ensures
        r matches Ok(p) && {
            let rows = all_rows(chunks);
            let n = taken(rows_before(chunks, chunks.len() as int));
            let pis = p.public_inputs@;
            &&& pis.len() == 8
            &&& pis[0] == leading_word(t.snapshot_root@)
            &&& pis[2] == sum_over(n, |i: int| word_at(rows[i], 0)) % 0xFFFF_FFFF_0000_0001
            &&& pis[3] == n
            &&& pis[5] == 0
            &&& pis[7] == n
        },
{
    let rows = all_rows(chunks);
    rows_stand_in_order(chunks);
    trace_is_of_its_rows(h, query_id, snapshot_id, plan, chunks, t);
    kept_rows_are_traced(h, query_id, snapshot_id, plan, chunks, t);
    match root_op(plan) {
        ProofOperator::PartialAggregate { group_by_json, .. } => {
            texts_name_keys(group_by_json@);
        },
        ProofOperator::MergeAggregate { group_by_json, .. } => {
            texts_name_keys(group_by_json@);
        },
        _ => {},
    }
    built_aggregate_accepted(h, rows, t);
    requests_are_answered(h, false, circuit, t, r);
    aggregate_counts_cells(h, t);
    root_holds_the_hash(h, query_id, snapshot_id, plan, chunks, t, t.columns@);
    let n = taken(height(t.columns@, 0));
    let hit = |i: int| meets(t.filter_op, cell(t.columns@, 0, i), t.filter_val);
    let f = |i: int|
        if hit(i) {
            cell(t.columns@, 0, i) as int
        } else {
            0
        };
    let g = |i: int| word_at(rows[i], 0);
    assert forall|i: int| 0 <= i < n implies #[trigger] f(i) == g(i) by {
        assert(t.columns@[0].values@[i].0 == key_of(rows)(i));
    }
    sum_over_same(n, f, g);
    all_counted(n, hit);
}

/// Where all rows meet a condition, all are counted.
proof fn all_counted(n: int, p: spec_fn(int) -> bool)
    requires
        0 <= n,
        forall|i: int| 0 <= i < n ==> #[trigger] p(i),
    ensures
        count_over(n, p) == n,
    decreases n,
{
    if n > 0 {
        all_counted(n - 1, p);
        assert(p(n - 1));
    }
}

/// A join over a snapshot is proved: every row has its own key, so that all of
/// the first 128 rows match.
pub proof fn joins_are_proved(
    h: FieldHash,
    query_id: QueryId,
    snapshot_id: SnapshotId,
    plan: ProofPlan,
    chunks: Seq<StagedChunk>,
    t: WitnessTrace,
    circuit: PlonkyCircuit,
    r: ZkResult<CircuitWitness>,
)
    requires
        is_field_hash(h),
        built(h, query_id, snapshot_id, plan, chunks, t),
        root_op(plan) is HashJoin,
        circuit is Join,
        leading_word(t.snapshot_root@) != 0,
        answered(h, false, circuit, t, r),
        forall|i: int|
            0 <= i < all_rows(chunks).len() ==> word_at(#[trigger] all_rows(chunks)[i], 0)
                < 0xFFFF_FFFF_0000_0001,
    ensures
        r matches Ok(p) && {
            let n = taken(rows_before(chunks, chunks.len() as int));
            let pis = p.public_inputs@;
            &&& pis.len() == 7
            &&& pis[0] == leading_word(t.snapshot_root@)
            &&& pis[3] == n
            &&& pis[4] == pis[0]
            &&& pis[6] == 128 - n
        },
{
    let rows = all_rows(chunks);
    rows_stand_in_order(chunks);
    trace_is_of_its_rows(h, query_id, snapshot_id, plan, chunks, t);
    kept_rows_are_traced(h, query_id, snapshot_id, plan, chunks, t);
    assert forall|i: int| 0 <= i < rows.len() implies #[trigger] crate::commitment::poseidon::primaries(
        rows,
    )[i] < 0xFFFF_FFFF_0000_0001 by {
        key_is_the_first_word(rows[i]);
    }
    built_join_accepted(h, rows, t);
    requests_are_answered(h, false, circuit, t, r);
    join_counts_matches(h, t);
    root_holds_the_hash(h, query_id, snapshot_id, plan, chunks, t, t.columns@);
    let n = taken(height(t.columns@, 0));
    all_counted(n, |i: int| keys_agree(t.columns@, i));
}

/// A sort over a snapshot of at most 128 rows is proved, in the direction of the
/// plan, where the keys are below 2^48.
#[verifier::rlimit(40)]
pub proof fn sorts_are_proved(
    h: FieldHash,
    query_id: QueryId,
    snapshot_id: SnapshotId,
    plan: ProofPlan,
    chunks: Seq<StagedChunk>,
    t: WitnessTrace,
    circuit: PlonkyCircuit,
    r: ZkResult<CircuitWitness>,
)
    requires
        is_field_hash(h),
        built(h, query_id, snapshot_id, plan, chunks, t),
        root_op(plan) is Sort,
        if plan.operator_params.sort_descending {
            circuit is DescSort
        } else {
            circuit is Sort
        },
        leading_word(t.snapshot_root@) != 0,
        answered(h, false, circuit, t, r),
        all_rows(chunks).len() <= 128,
        forall|i: int|
            0 <= i < all_rows(chunks).len() ==> word_at(#[trigger] all_rows(chunks)[i], 0)
                < 0x1_0000_0000_0000,
    ensures
        r matches Ok(p) && {
            let pis = p.public_inputs@;
            &&& pis.len() == 7
            &&& pis[0] == leading_word(t.snapshot_root@)
            &&& pis[3] == rows_before(chunks, chunks.len() as int)
        },
{
    let rows = all_rows(chunks);
    let n = rows.len() as int;
    let descending = plan.operator_params.sort_descending;
    let ins = t.input_columns@;
    let outs = t.columns@;
    rows_stand_in_order(chunks);
    trace_is_of_its_rows(h, query_id, snapshot_id, plan, chunks, t);
    sorts_are_traced(h, query_id, snapshot_id, plan, chunks, t);
    root_holds_the_hash(h, query_id, snapshot_id, plan, chunks, t, ins);
    let a = outs[0].values@;
    let b = outs[1].values@;
    let c = outs[2].values@;
    let given = row_triples(h, rows);
    let sorted = Seq::new(a.len(), |i: int| (a[i].0, b[i].0, c[i].0));
    assert forall|i: int| 0 <= i < n implies (#[trigger] given[i]).0 < 0x1_0000_0000_0000
        && given[i].1 < 0xFFFF_FFFF_0000_0001 && given[i].2 < 0xFFFF_FFFF_0000_0001 by {
        assert(word_at(rows[i], 0) >= 0);
        assert(h(elements_of(rows[i])).len() == 4);
    }
    assert(row_cells(ins, n) =~= given) by {
        assert forall|i: int| 0 <= i < n implies row_cells(ins, n)[i] == given[i] by {
            assert(ins[0].values@[i].0 == key_of(rows)(i));
            assert(ins[1].values@[i].0 == digest_of(h, rows, 0)(i));
            assert(ins[2].values@[i].0 == digest_of(h, rows, 1)(i));
        }
    }
    assert(row_cells(outs, n) =~= sorted);
    assert forall|i: int| 0 <= i < n implies (#[trigger] sorted[i]).0 < 0x1_0000_0000_0000
        && sorted[i].1 < 0xFFFF_FFFF_0000_0001 && sorted[i].2 < 0xFFFF_FFFF_0000_0001 by {
        permuted_element(given, sorted, i);
        let j = choose|j: int| 0 <= j < given.len() && #[trigger] given[j] == sorted[i];
        assert(given[j] == sorted[i]);
    }
    assert forall|i: int| 0 <= i < n implies #[trigger] cell(outs, 0, i) < 0x1_0000_0000_0000 by {
        assert(sorted[i].0 == a[i].0);
    }
    assert forall|i: int| 0 <= i < n implies #[trigger] cell(outs, 1, i)
        < 0xFFFF_FFFF_0000_0001 by {
        assert(sorted[i].1 == b[i].0);
    }
    assert forall|i: int| 0 <= i < n implies #[trigger] cell(outs, 2, i)
        < 0xFFFF_FFFF_0000_0001 by {
        assert(sorted[i].2 == c[i].0);
    }
    assert forall|i: int| 0 <= i < n implies #[trigger] cell(ins, 0, i) < 0xFFFF_FFFF_0000_0001 by {
        assert(row_cells(ins, n)[i] == given[i]);
    }
    assert forall|i: int| 0 <= i < n implies #[trigger] cell(ins, 1, i) < 0xFFFF_FFFF_0000_0001 by {
        assert(row_cells(ins, n)[i] == given[i]);
    }
    assert forall|i: int| 0 <= i < n implies #[trigger] cell(ins, 2, i) < 0xFFFF_FFFF_0000_0001 by {
        assert(row_cells(ins, n)[i] == given[i]);
    }
    assert(three_columns(ins, n));
    assert(three_columns(outs, n));
    assert(cells_below(outs, 0, 0x1_0000_0000_0000));
    assert(cells_in_order(outs, n, descending)) by {
        assert forall|i: int, j: int| 0 <= i <= j < n implies if descending {
            #[trigger] cell(outs, 0, i) >= #[trigger] cell(outs, 0, j)
        } else {
            cell(outs, 0, i) <= cell(outs, 0, j)
        } by {
            assert(cell(outs, 0, i) == a[i].0 && cell(outs, 0, j) == a[j].0);
        }
    }
    sort_accepted_cells(h, t, descending, n);
    requests_are_answered(h, false, circuit, t, r);
    sort_counts_cells(h, t, descending);
}

/// An element of a permuted list is one of the list.
proof fn permuted_element<T>(s: Seq<T>, t: Seq<T>, i: int)
    requires
        t.to_multiset() == s.to_multiset(),
        0 <= i < t.len(),
    ensures
        exists|j: int| 0 <= j < s.len() && #[trigger] s[j] == t[i],
{
    s.to_multiset_ensures();
    t.to_multiset_ensures();
    assert(t.contains(t[i]));
    assert(t.to_multiset().count(t[i]) > 0);
    assert(s.contains(t[i]));
}

/// A grouping over a snapshot of at most 128 rows is proved where the keys are
/// below 2^48, and right: the count is the number of rows, and the number of
/// groups is that of different keys.
#[verifier::rlimit(40)]
pub proof fn groups_are_proved(
    h: FieldHash,
    query_id: QueryId,
    snapshot_id: SnapshotId,
    plan: ProofPlan,
    chunks: Seq<StagedChunk>,
    t: WitnessTrace,
    circuit: PlonkyCircuit,
    r: ZkResult<CircuitWitness>,
)
    requires
        is_field_hash(h),
        built(h, query_id, snapshot_id, plan, chunks, t),
        groups(root_op(plan)),
        circuit is GroupBy,
        leading_word(t.snapshot_root@) != 0,
        answered(h, false, circuit, t, r),
        all_rows(chunks).len() <= 128,
        forall|i: int|
            0 <= i < all_rows(chunks).len() ==> word_at(#[trigger] all_rows(chunks)[i], 0)
                < 0x1_0000_0000_0000,
    ensures
        r matches Ok(p) && {
            let rows = all_rows(chunks);
            let pis = p.public_inputs@;
            let different = Set::new(
                |k: u64|
                    exists|i: int| 0 <= i < rows.len() && word_at(#[trigger] rows[i], 0) == k,
            );
            &&& pis.len() == 8
            &&& pis[0] == leading_word(t.snapshot_root@)
            &&& pis[3] == rows_before(chunks, chunks.len() as int)
            &&& different.finite()
            &&& pis[4] == different.len()
        },
{
    let rows = all_rows(chunks);
    let n = rows.len() as int;
    let ins = t.input_columns@;
    let outs = t.columns@;
    rows_stand_in_order(chunks);
    trace_is_of_its_rows(h, query_id, snapshot_id, plan, chunks, t);
    groups_are_traced(h, query_id, snapshot_id, plan, chunks, t);
    root_holds_the_hash(h, query_id, snapshot_id, plan, chunks, t, ins);
    let a = outs[0].values@;
    let given = Seq::new(rows.len(), |i: int| word_at(rows[i], 0) as u64);
    let sorted = Seq::new(a.len(), |i: int| a[i].0);
    assert forall|i: int| 0 <= i < n implies #[trigger] given[i] == word_at(rows[i], 0) && given[i]
        < 0x1_0000_0000_0000 by {
        assert(word_at(rows[i], 0) >= 0);
    }
    assert(column_cells(ins, 0, n) =~= given) by {
        assert forall|i: int| 0 <= i < n implies column_cells(ins, 0, n)[i] == given[i] by {
            assert(ins[0].values@[i].0 == key_of(rows)(i));
        }
    }
    assert(column_cells(outs, 0, n) =~= sorted);
    assert forall|i: int| 0 <= i < n implies #[trigger] sorted[i] < 0x1_0000_0000_0000 by {
        permuted_element(given, sorted, i);
        let j = choose|j: int| 0 <= j < given.len() && #[trigger] given[j] == sorted[i];
        assert(given[j] == sorted[i]);
    }
    assert forall|i: int| 0 <= i < n implies #[trigger] cell(outs, 0, i) < 0x1_0000_0000_0000 by {
        assert(sorted[i] == a[i].0);
    }
    assert forall|i: int| 0 <= i < n implies #[trigger] cell(ins, 0, i) < 0xFFFF_FFFF_0000_0001 by {
        assert(column_cells(ins, 0, n)[i] == given[i]);
    }
    assert(cells_in_order(outs, n, false)) by {
        assert forall|i: int, j: int| 0 <= i <= j < n implies #[trigger] cell(outs, 0, i)
            <= #[trigger] cell(outs, 0, j) by {
            assert(cell(outs, 0, i) == a[i].0 && cell(outs, 0, j) == a[j].0);
        }
    }
    group_accepted_cells(h, t, n);
    requests_are_answered(h, false, circuit, t, r);
    group_counts_cells(h, t);
    groups_are_different_keys(h, t);
    let different = Set::new(
        |k: u64| exists|i: int| 0 <= i < rows.len() && word_at(#[trigger] rows[i], 0) == k,
    );
    let among = Set::new(|k: u64| exists|i: int| 0 <= i < n && #[trigger] cell(outs, 0, i) == k);
    assert forall|k: u64| different.contains(k) == among.contains(k) by {
        if different.contains(k) {
            let i = choose|i: int| 0 <= i < rows.len() && word_at(#[trigger] rows[i], 0) == k;
            assert(given[i] == k);
            permuted_element(sorted, given, i);
            let j = choose|j: int| 0 <= j < sorted.len() && #[trigger] sorted[j] == given[i];
            assert(cell(outs, 0, j) == k);
        }
        if among.contains(k) {
            let i = choose|i: int| 0 <= i < n && #[trigger] cell(outs, 0, i) == k;
            assert(sorted[i] == k);
            permuted_element(given, sorted, i);
            let j = choose|j: int| 0 <= j < given.len() && #[trigger] given[j] == sorted[i];
            assert(word_at(rows[j], 0) == k);
        }
    }
    assert(different =~= among);
}

} // verus!
