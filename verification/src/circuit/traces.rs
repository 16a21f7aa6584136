//! What a witness holds of the rows that it was built from.

use vstd::prelude::*;
use vstd::utf8::encode_utf8;

use crate::circuit::ordering::sorted_rows;
use crate::circuit::ordering::KeyedRow;
use crate::circuit::system::FieldHash;
use crate::circuit::witness::all_rows;
use crate::circuit::witness::built;
use crate::circuit::witness::column_bytes;
use crate::circuit::witness::component;
use crate::circuit::witness::fingerprints;
use crate::circuit::witness::keyed_rows;
use crate::circuit::witness::root_op;
use crate::circuit::witness::value_bytes;
use crate::circuit::witness::ColumnTrace;
use crate::circuit::witness::WitnessTrace;
use crate::commitment::laws::commitment_is_of_the_values;
use crate::commitment::laws::hashed_values;
use crate::commitment::laws::key_is_the_first_word;
use crate::commitment::laws::keys_are_first_words;
use crate::commitment::laws::roots_spell_their_number;
use crate::commitment::laws::whole_rows_are_hashed;
use crate::commitment::laws::word_at;
use crate::commitment::laws::word_inside;
use crate::commitment::laws::words_are_spelled;
use crate::commitment::poseidon::packed_words;
use crate::commitment::poseidon::primaries;
use crate::commitment::poseidon::snap_lo;
use crate::commitment::poseidon::words;
use crate::commitment::poseidon::MAX_ROWS;
use crate::database::StagedChunk;
use crate::encoding::le_bytes;
use crate::field::residue;
use crate::field::FieldElement;
use crate::outside::blake3_digest;
use crate::outside::uuid_text;
use crate::query::laws::groups;
use crate::query::laws::texts_name_keys;
use crate::query::proof_plan::ProofOperator;
use crate::query::proof_plan::ProofPlan;
use crate::types::QueryId;
use crate::types::SnapshotId;

verus! {

/// The number of rows in the chunks before chunk `c`.
pub open spec fn rows_before(chunks: Seq<StagedChunk>, c: int) -> int
    decreases c,
{
    if c <= 0 {
        0
    } else {
        rows_before(chunks, c - 1) + chunks[c - 1].row_bytes@.len()
    }
}

proof fn rows_before_prefix(chunks: Seq<StagedChunk>, c: int)
    requires
        0 <= c < chunks.len(),
    ensures
        rows_before(chunks.drop_last(), c) == rows_before(chunks, c),
        0 <= rows_before(chunks, c),
    decreases c,
{
    if c > 0 {
        rows_before_prefix(chunks, c - 1);
    }
}

/// Row `j` of chunk `c` stands behind all rows of earlier chunks and `j` of its
/// own.
pub open spec fn stands_in_order(
    chunks: Seq<StagedChunk>,
    rows: Seq<Seq<u8>>,
    c: int,
    j: int,
) -> bool {
    let k = rows_before(chunks, c) + j;
    0 <= k < rows.len() && rows[k] == chunks[c].row_bytes@[j]@
}

/// The rows of a snapshot are those of its chunks, all of them and in order.
pub proof fn rows_stand_in_order(chunks: Seq<StagedChunk>)
    ensures
        all_rows(chunks).len() == rows_before(chunks, chunks.len() as int),
        forall|c: int, j: int|
            0 <= c < chunks.len() && 0 <= j < chunks[c].row_bytes@.len()
                ==> #[trigger] stands_in_order(chunks, all_rows(chunks), c, j),
    decreases chunks.len(),
{
    let n = chunks.len() as int;
    if n > 0 {
        let t = chunks.drop_last();
        rows_stand_in_order(t);
        rows_before_prefix(chunks, n - 1);
        assert(all_rows(chunks).len() == all_rows(t).len() + chunks[n - 1].row_bytes@.len());
        assert forall|c: int, j: int|
            0 <= c < n && 0 <= j < chunks[c].row_bytes@.len() implies #[trigger] stands_in_order(
            chunks,
            all_rows(chunks),
            c,
            j,
        ) by {
            rows_before_prefix(chunks, c);
            if c < n - 1 {
                assert(t[c] == chunks[c]);
                assert(stands_in_order(t, all_rows(t), c, j));
            }
        }
    }
}

/// The number of values in the columns before column `c`.
pub open spec fn values_before(columns: Seq<ColumnTrace>, c: int) -> int
    decreases c,
{
    if c <= 0 {
        0
    } else {
        values_before(columns, c - 1) + columns[c - 1].values@.len()
    }
}

/// Value `i` of column `c` stands, as a field element, behind all values of
/// earlier columns and `i` of its own.
pub open spec fn spelled_in_order(columns: Seq<ColumnTrace>, bytes: Seq<u8>, c: int, i: int) -> bool {
    let k = values_before(columns, c) + i;
    &&& 0 <= k
    &&& 8 * k + 8 <= bytes.len()
    &&& word_at(bytes, 8 * k) == columns[c].values@[i].0 as int % 0xFFFF_FFFF_0000_0001
}

proof fn values_spelled(values: Seq<FieldElement>, n: int)
    requires
        0 <= n <= values.len(),
    ensures
        value_bytes(values, n).len() == 8 * n,
        forall|i: int|
            0 <= i < n ==> value_bytes(values, n).subrange(8 * i, 8 * i + 8) == le_bytes(
                residue((#[trigger] values[i]).0) as nat,
                8,
            ),
    decreases n,
{
    if n > 0 {
        values_spelled(values, n - 1);
        words_are_spelled(residue(values[n - 1].0));
        let s = value_bytes(values, n);
        let b = value_bytes(values, n - 1);
        assert forall|i: int| 0 <= i < n implies s.subrange(8 * i, 8 * i + 8) == le_bytes(
            residue((#[trigger] values[i]).0) as nat,
            8,
        ) by {
            if i < n - 1 {
                assert(s.subrange(8 * i, 8 * i + 8) =~= b.subrange(8 * i, 8 * i + 8));
            } else {
                assert(s.subrange(8 * i, 8 * i + 8) =~= le_bytes(
                    residue(values[i].0) as nat,
                    8,
                ));
            }
        }
    }
}

/// The bytes of the first `n` columns hold every value of every column, in order,
/// and nothing else.
pub proof fn columns_are_spelled(columns: Seq<ColumnTrace>, n: int)
    requires
        0 <= n <= columns.len(),
    ensures
        0 <= values_before(columns, n),
        column_bytes(columns, n).len() == 8 * values_before(columns, n),
        forall|c: int, i: int|
            0 <= c < n && 0 <= i < columns[c].values@.len() ==> #[trigger] spelled_in_order(
                columns,
                column_bytes(columns, n),
                c,
                i,
            ),
    decreases n,
{
    if n > 0 {
        columns_are_spelled(columns, n - 1);
        let last = columns[n - 1].values@;
        values_spelled(last, last.len() as int);
        let b = column_bytes(columns, n - 1);
        let v = value_bytes(last, last.len() as int);
        let s = column_bytes(columns, n);
        assert(s =~= b + v);
        assert forall|c: int, i: int|
            0 <= c < n && 0 <= i < columns[c].values@.len() implies #[trigger] spelled_in_order(
            columns,
            s,
            c,
            i,
        ) by {
            let k = 8 * (values_before(columns, c) + i);
            if c < n - 1 {
                assert(spelled_in_order(columns, b, c, i));
                let t = b.subrange(k, k + 8);
                word_inside(b, k, t);
                assert(s.subrange(k, k + 8) =~= t);
                word_inside(s, k, t);
            } else {
                let t = le_bytes(residue(last[i].0) as nat, 8);
                words_are_spelled(residue(last[i].0));
                assert(v.subrange(8 * i, 8 * i + 8) == t);
                assert(s.subrange(k, k + 8) =~= v.subrange(8 * i, 8 * i + 8));
                word_inside(s, k, t);
            }
        }
    }
}

/// A column holds no nulls and, for each row, the number that `f` gives.
pub open spec fn column_is(c: ColumnTrace, n: int, f: spec_fn(int) -> int) -> bool {
    &&& c.values@.len() == n
    &&& c.nulls@.len() == n
    &&& forall|i: int| 0 <= i < n ==> (#[trigger] c.values@[i]).0 == f(i)
    &&& forall|i: int| 0 <= i < n ==> !#[trigger] c.nulls@[i]
}

/// The key of row `i`: the number in its first eight bytes.
pub open spec fn key_of(rows: Seq<Seq<u8>>) -> spec_fn(int) -> int {
    |i: int| word_at(rows[i], 0)
}

/// The field elements of a row: the number in each of its groups of eight bytes.
pub open spec fn elements_of(row: Seq<u8>) -> Seq<u64> {
    Seq::new(
        ((row.len() + 7) / 8) as nat,
        |i: int| (word_at(row, 8 * i) % 0xFFFF_FFFF_0000_0001) as u64,
    )
}

/// Element `k` of the hash of row `i`.
pub open spec fn digest_of(h: FieldHash, rows: Seq<Seq<u8>>, k: int) -> spec_fn(int) -> int {
    |i: int| h(elements_of(rows[i]))[k] as int
}

proof fn row_elements(row: Seq<u8>)
    ensures
        packed_words(row) == elements_of(row),
{
    whole_rows_are_hashed(row);
    assert(packed_words(row).len() == elements_of(row).len());
    assert forall|i: int| 0 <= i < packed_words(row).len() implies packed_words(row)[i]
        == elements_of(row)[i] by {
        assert(packed_words(row)[i] == word_at(row, 8 * i) % 0xFFFF_FFFF_0000_0001);
    }
    assert(packed_words(row) =~= elements_of(row));
}

/// A column that holds given values.
proof fn held(c: ColumnTrace, name: Seq<char>, values: Seq<u64>, f: spec_fn(int) -> int)
    requires
        c.holds(name, values),
        forall|i: int| 0 <= i < values.len() ==> #[trigger] values[i] == f(i),
    ensures
        column_is(c, values.len() as int, f),
{
    assert(words(c.values@).len() == c.values@.len());
    assert forall|i: int| 0 <= i < values.len() implies (#[trigger] c.values@[i]).0 == f(i) by {
        assert(words(c.values@)[i] == values[i]);
    }
}

/// What every witness says of its plan and its rows: the identifiers that it was
/// given, all rows and all of them selected, no predicate, a root that spells the
/// first element of the hash of the first 128 keys, and the digests of the
/// query's identifier and of every value put out.
#[verifier::rlimit(40)]
pub proof fn trace_is_of_its_rows(
    h: FieldHash,
    query_id: QueryId,
    snapshot_id: SnapshotId,
    plan: ProofPlan,
    chunks: Seq<StagedChunk>,
    t: WitnessTrace,
)
    requires
        built(h, query_id, snapshot_id, plan, chunks, t),
    ensures
        t.query_id == query_id,
        t.snapshot_id == snapshot_id,
        t.result_row_count == rows_before(chunks, chunks.len() as int),
        t.selected@.len() == rows_before(chunks, chunks.len() as int),
        forall|i: int| 0 <= i < t.selected@.len() ==> #[trigger] t.selected@[i],
        t.aggregates@.len() == 0,
        t.filter_op == 0,
        t.filter_val == 0,
        t.group_output_lo == 0,
        t.join_right_snap_lo == 0,
        t.sort_descending == plan.operator_params.sort_descending,
        t.snapshot_root@.len() == 32,
        word_at(t.snapshot_root@, 0) == h(
            Seq::new(
                128,
                |i: int|
                    if i < all_rows(chunks).len() {
                        (word_at(all_rows(chunks)[i], 0) % 0xFFFF_FFFF_0000_0001) as u64
                    } else {
                        0
                    },
            ),
        )[0],
        forall|k: int| 8 <= k < 32 ==> #[trigger] t.snapshot_root@[k] == 0,
        t.query_hash@ == blake3_digest(encode_utf8(uuid_text(plan.query_id.0))),
        exists|bytes: Seq<u8>|
            {
                &&& t.result_commitment@ == #[trigger] blake3_digest(bytes)
                &&& bytes.len() == 8 * values_before(t.columns@, t.columns@.len() as int)
                &&& forall|c: int, i: int|
                    0 <= c < t.columns@.len() && 0 <= i < t.columns@[c].values@.len()
                        ==> #[trigger] spelled_in_order(t.columns@, bytes, c, i)
            },
{
    let rows = all_rows(chunks);
    let lo = snap_lo(h, MAX_ROWS as nat, primaries(rows));
    let hashed = Seq::new(
        128,
        |i: int|
            if i < rows.len() {
                (word_at(rows[i], 0) % 0xFFFF_FFFF_0000_0001) as u64
            } else {
                0
            },
    );
    rows_stand_in_order(chunks);
    roots_spell_their_number(lo);
    commitment_is_of_the_values(h, 128, primaries(rows));
    keys_are_first_words(rows);
    assert(hashed_values(128, primaries(rows)) =~= hashed) by {
        assert forall|i: int| 0 <= i < 128 implies hashed_values(128, primaries(rows))[i]
            == hashed[i] by {
            if i < rows.len() {
                assert(primaries(rows)[i] == word_at(rows[i], 0));
            }
        }
    }
    let n = t.columns@.len() as int;
    columns_are_spelled(t.columns@, n);
    let bytes = column_bytes(t.columns@, n);
    assert(t.result_commitment@ == blake3_digest(bytes));
}

/// The witness of an operator that keeps rows where they are holds one column,
/// the keys of all rows in order.
pub proof fn kept_rows_are_traced(
    h: FieldHash,
    query_id: QueryId,
    snapshot_id: SnapshotId,
    plan: ProofPlan,
    chunks: Seq<StagedChunk>,
    t: WitnessTrace,
)
    requires
        built(h, query_id, snapshot_id, plan, chunks, t),
        !(root_op(plan) is Sort),
        !groups(root_op(plan)),
    ensures
        t.input_columns@.len() == 0,
        t.columns@.len() == 1,
        t.columns@[0].column_name@ == "__primary"@,
        column_is(
            t.columns@[0],
            rows_before(chunks, chunks.len() as int),
            key_of(all_rows(chunks)),
        ),
{
    let rows = all_rows(chunks);
    rows_stand_in_order(chunks);
    match root_op(plan) {
        ProofOperator::PartialAggregate { group_by_json, .. } => {
            texts_name_keys(group_by_json@);
        },
        ProofOperator::MergeAggregate { group_by_json, .. } => {
            texts_name_keys(group_by_json@);
        },
        _ => {},
    }
    keys_are_first_words(rows);
    held(t.columns@[0], "__primary"@, primaries(rows), key_of(rows));
}

/// The witness of a grouping holds the keys of all rows in order, and the same
/// keys, each as often, in ascending order.
pub proof fn groups_are_traced(
    h: FieldHash,
    query_id: QueryId,
    snapshot_id: SnapshotId,
    plan: ProofPlan,
    chunks: Seq<StagedChunk>,
    t: WitnessTrace,
)
    requires
        built(h, query_id, snapshot_id, plan, chunks, t),
        groups(root_op(plan)),
    ensures
        ({
            let rows = all_rows(chunks);
            let n = rows_before(chunks, chunks.len() as int);
            let outs = t.columns@[0].values@;
            &&& t.input_columns@.len() == 1
            &&& t.input_columns@[0].column_name@ == "__primary_in"@
            &&& column_is(t.input_columns@[0], n, key_of(rows))
            &&& t.columns@.len() == 1
            &&& t.columns@[0].column_name@ == "__primary_out"@
            &&& outs.len() == n
            &&& forall|i: int, j: int|
                0 <= i <= j < n ==> (#[trigger] outs[i]).0 <= (#[trigger] outs[j]).0
            &&& Seq::new(outs.len(), |i: int| outs[i].0).to_multiset() == Seq::new(
                rows.len(),
                |i: int| word_at(rows[i], 0) as u64,
            ).to_multiset()
            &&& forall|i: int|
                0 <= i < t.columns@[0].nulls@.len() ==> !#[trigger] t.columns@[0].nulls@[i]
        }),
{
    let rows = all_rows(chunks);
    let outs = t.columns@[0].values@;
    rows_stand_in_order(chunks);
    match root_op(plan) {
        ProofOperator::PartialAggregate { group_by_json, .. } => {
            texts_name_keys(group_by_json@);
        },
        ProofOperator::MergeAggregate { group_by_json, .. } => {
            texts_name_keys(group_by_json@);
        },
        _ => {},
    }
    keys_are_first_words(rows);
    held(t.input_columns@[0], "__primary_in"@, primaries(rows), key_of(rows));
    let direct = Seq::new(rows.len(), |i: int| word_at(rows[i], 0) as u64);
    assert(primaries(rows) =~= direct) by {
        assert forall|i: int| 0 <= i < rows.len() implies primaries(rows)[i] == direct[i] by {
            assert(primaries(rows)[i] == word_at(rows[i], 0));
        }
    }
    assert(words(outs) =~= Seq::new(outs.len(), |i: int| outs[i].0));
    direct.to_multiset_ensures();
    words(outs).to_multiset_ensures();
    assert(outs.len() == rows.len());
    assert forall|i: int, j: int| 0 <= i <= j < outs.len() implies (#[trigger] outs[i]).0 <= (
    #[trigger] outs[j]).0 by {
        assert(words(outs)[i] <= words(outs)[j]);
    }
}

/// The key and two elements of the hash of each row.
pub open spec fn row_triples(h: FieldHash, rows: Seq<Seq<u8>>) -> Seq<(u64, u64, u64)> {
    Seq::new(
        rows.len(),
        |i: int|
            (
                word_at(rows[i], 0) as u64,
                h(elements_of(rows[i]))[0],
                h(elements_of(rows[i]))[1],
            ),
    )
}

/// The witness of a sort holds the keys of all rows in order with the first two
/// elements of the hash of each row, and the same rows, each as often, sorted by
/// key in the direction of the plan.
#[verifier::rlimit(40)]
pub proof fn sorts_are_traced(
    h: FieldHash,
    query_id: QueryId,
    snapshot_id: SnapshotId,
    plan: ProofPlan,
    chunks: Seq<StagedChunk>,
    t: WitnessTrace,
)
    requires
        built(h, query_id, snapshot_id, plan, chunks, t),
        root_op(plan) is Sort,
    ensures
        ({
            let rows = all_rows(chunks);
            let n = rows_before(chunks, chunks.len() as int);
            let a = t.columns@[0].values@;
            let b = t.columns@[1].values@;
            let c = t.columns@[2].values@;
            &&& t.input_columns@.len() == 3
            &&& column_is(t.input_columns@[0], n, key_of(rows))
            &&& column_is(t.input_columns@[1], n, digest_of(h, rows, 0))
            &&& column_is(t.input_columns@[2], n, digest_of(h, rows, 1))
            &&& t.input_columns@[0].column_name@ == "__primary_in"@
            &&& t.input_columns@[1].column_name@ == "__secondary_in"@
            &&& t.input_columns@[2].column_name@ == "__secondary_in_hi"@
            &&& t.columns@.len() == 3
            &&& t.columns@[0].column_name@ == "__primary_out"@
            &&& t.columns@[1].column_name@ == "__secondary_out"@
            &&& t.columns@[2].column_name@ == "__secondary_out_hi"@
            &&& a.len() == n
            &&& b.len() == n
            &&& c.len() == n
            &&& forall|i: int, j: int|
                0 <= i <= j < n ==> if plan.operator_params.sort_descending {
                    (#[trigger] a[i]).0 >= (#[trigger] a[j]).0
                } else {
                    a[i].0 <= a[j].0
                }
            &&& Seq::new(a.len(), |i: int| (a[i].0, b[i].0, c[i].0)).to_multiset() == row_triples(
                h,
                rows,
            ).to_multiset()
        }),
{
    let rows = all_rows(chunks);
    let descending = plan.operator_params.sort_descending;
    let outs = t.columns@;
    let a = outs[0].values@;
    let b = outs[1].values@;
    let c = outs[2].values@;
    rows_stand_in_order(chunks);
    keys_are_first_words(rows);
    held(t.input_columns@[0], "__primary_in"@, primaries(rows), key_of(rows));
    assert forall|k: int, i: int| 0 <= i < rows.len() implies #[trigger] fingerprints(
        h,
        rows,
        k,
    )[i] == digest_of(h, rows, k)(i) by {
        row_elements(rows[i]);
    }
    held(t.input_columns@[1], "__secondary_in"@, fingerprints(h, rows, 0), digest_of(h, rows, 0));
    held(t.input_columns@[2], "__secondary_in_hi"@, fingerprints(h, rows, 1), digest_of(h, rows, 1));
    let s = choose|s: Seq<KeyedRow>|
        {
            &&& #[trigger] sorted_rows(s, descending)
            &&& s.to_multiset() == keyed_rows(h, rows).to_multiset()
            &&& outs[0].holds("__primary_out"@, component(s, 0))
            &&& outs[1].holds("__secondary_out"@, component(s, 1))
            &&& outs[2].holds("__secondary_out_hi"@, component(s, 2))
        };
    assert(keyed_rows(h, rows) =~= row_triples(h, rows)) by {
        assert forall|i: int| 0 <= i < rows.len() implies keyed_rows(h, rows)[i] == row_triples(
            h,
            rows,
        )[i] by {
            row_elements(rows[i]);
            key_is_the_first_word(rows[i]);
        }
    }
    s.to_multiset_ensures();
    keyed_rows(h, rows).to_multiset_ensures();
    assert(s.len() == rows.len());
    assert(words(a) == component(s, 0));
    assert(words(b) == component(s, 1));
    assert(words(c) == component(s, 2));
    assert(words(a).len() == a.len() && words(b).len() == b.len() && words(c).len() == c.len());
    let triples = Seq::new(a.len(), |i: int| (a[i].0, b[i].0, c[i].0));
    assert(triples =~= s) by {
        assert forall|i: int| 0 <= i < s.len() implies triples[i] == s[i] by {
            assert(words(a)[i] == component(s, 0)[i]);
            assert(words(b)[i] == component(s, 1)[i]);
            assert(words(c)[i] == component(s, 2)[i]);
        }
    }
    assert forall|i: int, j: int| 0 <= i <= j < s.len() implies if descending {
        (#[trigger] a[i]).0 >= (#[trigger] a[j]).0
    } else {
        a[i].0 <= a[j].0
    } by {
        assert(triples[i].0 == s[i].0 && triples[j].0 == s[j].0);
    }
}

/// A new witness holds nothing but its identifiers.
pub proof fn new_traces_are_empty(t: WitnessTrace)
    requires
        t.blank(),
    ensures
        forall|i: int| 0 <= i < 32 ==> #[trigger] t.snapshot_root@[i] == 0,
        forall|i: int| 0 <= i < 32 ==> #[trigger] t.query_hash@[i] == 0,
        forall|i: int| 0 <= i < 32 ==> #[trigger] t.result_commitment@[i] == 0,
        t.result_row_count == 0,
        t.columns@.len() == 0,
        t.input_columns@.len() == 0,
        t.selected@.len() == 0,
        t.aggregates@.len() == 0,
        t.filter_op == 0,
        t.filter_val == 0,
        t.group_output_lo == 0,
        t.join_right_snap_lo == 0,
        !t.sort_descending,
{
}

/// A column holds its name, and no nulls.
pub proof fn columns_hold_their_name(c: ColumnTrace, name: Seq<char>, values: Seq<u64>)
    requires
        c.holds(name, values),
    ensures
        c.column_name@ == name,
        column_is(c, values.len() as int, |i: int| values[i] as int),
{
    held(c, name, values, |i: int| values[i] as int);
}

} // verus!
