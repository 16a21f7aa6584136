//! What holds of the backend as a whole: what is built can be proved, what is
//! wrong is refused, what is proved and sealed verifies, and what verifies agrees
//! with its proof.

use vstd::prelude::*;

use crate::backend::classify::merges;
use crate::backend::classify::own_circuits;
use crate::backend::classify::partials;
use crate::backend::classify::provable_operators;
use crate::backend::classify::unsupported;
use crate::backend::classify::TAG_AGG;
use crate::backend::classify::TAG_DESC_SORT;
use crate::backend::classify::TAG_GROUP_BY;
use crate::backend::classify::TAG_JOIN;
use crate::backend::classify::TAG_SORT;
use crate::backend::plonky2::agg_values;
use crate::backend::plonky2::column_words;
use crate::backend::plonky2::group_in_keys;
use crate::backend::plonky2::group_values;
use crate::backend::plonky2::join_left_values;
use crate::backend::plonky2::join_right_keys;
use crate::backend::plonky2::join_selected;
use crate::backend::plonky2::sort_values;
use crate::backend::plonky2::witness_accepted;
use crate::backend::plonky2::witness_statement;
use crate::backend::verify::key_tag;
use crate::backend::verify::pi;
use crate::backend::verify::pi_failure;
use crate::backend::verify::records;
use crate::backend::verify::rejection;
use crate::circuit::agg::agg_complete_unfiltered;
use crate::circuit::group_by::group_inputs;
use crate::circuit::inputs::front;
use crate::circuit::join::join_complete;
use crate::circuit::join::join_inputs;
use crate::circuit::join::join_row;
use crate::circuit::join::join_rows_used;
use crate::circuit::join::selector_column;
use crate::circuit::laws::canonical_words;
use crate::circuit::laws::elements;
use crate::circuit::laws::folded;
use crate::circuit::laws::group_collides;
use crate::circuit::laws::group_collisions_are_few;
use crate::circuit::laws::group_complete;
use crate::circuit::laws::group_refused;
use crate::circuit::laws::keys_given;
use crate::circuit::laws::keys_permuted;
use crate::circuit::laws::row_triples;
use crate::circuit::laws::rows_collide;
use crate::circuit::laws::rows_given;
use crate::circuit::laws::rows_in;
use crate::circuit::laws::rows_out;
use crate::circuit::laws::sort_collides;
use crate::circuit::laws::sort_collisions_are_few;
use crate::circuit::laws::sort_complete;
use crate::circuit::laws::sort_refused;
use crate::circuit::laws::sortable;
use crate::circuit::laws::sorted_in_steps;
use crate::circuit::ordering::sorted_rows;
use crate::circuit::ordering::KeyedRow;
use crate::circuit::permutation::colliding;
use crate::circuit::permutation::mapped_permutation;
use crate::circuit::sort::sort_inputs;
use crate::circuit::system::bit;
use crate::circuit::system::is_field_hash;
use crate::circuit::system::FieldHash;
use crate::circuit::witness::component;
use crate::circuit::witness::grouped_shape;
use crate::circuit::witness::keyed_rows;
use crate::circuit::witness::plain_shape;
use crate::circuit::witness::sorted_shape;
use crate::circuit::witness::WitnessTrace;
use crate::commitment::poseidon::packed_words;
use crate::commitment::poseidon::padded;
use crate::commitment::poseidon::primaries;
use crate::commitment::poseidon::root_bytes;
use crate::commitment::poseidon::root_lo;
use crate::commitment::poseidon::root_roundtrip;
use crate::commitment::poseidon::snap_lo;
use crate::commitment::poseidon::MAX_ROWS;
use crate::encoding::le_value;
use crate::encoding::le_value_bound;
use crate::encoding::le_value_injective;
use crate::encoding::pow256_8;
use crate::field::residue;
use crate::field::MODULUS;
use crate::proofs::artifacts::ProofArtifact;
use crate::proofs::artifacts::PublicInputs;
use crate::query::logical_plan::LogicalNode;
use crate::query::physical_plan::translates;
use crate::query::physical_plan::PhysicalNode;
use crate::query::proof_plan::node_count;
use crate::query::proof_plan::plan_tasks;
use crate::query::proof_plan::ProvingTask;

verus! {

/// What is proved and sealed verifies: if an artifact records a proof whose
/// public inputs are those of its witness, nothing in it disagrees with the
/// proof. The commitments to snapshot and query must be canonical field
/// elements, and what the witness says of the groups or of the right side of a
/// join must be what the circuit says, or nothing.
pub proof fn sealed_proof_verifies(
    h: FieldHash,
    tag: u8,
    w: WitnessTrace,
    proof_bytes: Seq<u8>,
    p: PublicInputs,
)
    requires
        tag <= 4,
        root_lo(w.snapshot_root@) < MODULUS,
        root_lo(w.query_hash@) < MODULUS,
        records(p, tag, w, proof_bytes, witness_statement(h, tag, w)),
        tag == TAG_GROUP_BY ==> w.group_output_lo == 0 || w.group_output_lo == witness_statement(
            h,
            tag,
            w,
        )[5],
        tag == TAG_JOIN ==> w.join_right_snap_lo == 0 || w.join_right_snap_lo == witness_statement(
            h,
            tag,
            w,
        )[4],
    ensures
        pi_failure(tag, witness_statement(h, tag, w), p) is None,
{
}

/// What verifies agrees with its proof: the snapshot and the query of a valid
/// artifact are those that the proof carries, and so is everything that the
/// artifact records of the circuit's result.
pub proof fn valid_artifact_agrees(
    a: ProofArtifact,
    checked: Result<(), String>,
    public_values: Result<Vec<u64>, String>,
)
    requires
        rejection(a, checked, public_values) is None,
    ensures
        checked is Ok,
        public_values is Ok,
        ({
            let tag = key_tag(a.verification_key_bytes@);
            let pis = public_values->Ok_0@;
            let p = a.public_inputs;
            &&& pi(pis, 0) == root_lo(p.snapshot_root@)
            &&& pi(pis, 1) == root_lo(p.query_hash@)
            &&& tag == TAG_AGG ==> {
                &&& pi(pis, 3) == p.result_row_count
                &&& pi(pis, 2) == p.result_sum
                &&& p.result_commit_lo == 0 || pi(pis, 4) == p.result_commit_lo
                &&& pi(pis, 5) == p.pred_op
                &&& p.pred_op == 0 || pi(pis, 6) == p.pred_val
                &&& p.agg_n_real == 0 || pi(pis, 7) == p.agg_n_real
            }
            &&& tag == TAG_SORT || tag == TAG_DESC_SORT ==> {
                &&& p.result_commit_lo == 0 || pi(pis, 4) == p.result_commit_lo
                &&& p.sort_secondary_snap_lo == 0 || pi(pis, 5) == p.sort_secondary_snap_lo
                &&& p.sort_secondary_hi_snap_lo == 0 || pi(pis, 6) == p.sort_secondary_hi_snap_lo
            }
            &&& tag == TAG_JOIN ==> {
                &&& p.join_right_snap_lo == 0 || pi(pis, 4) == p.join_right_snap_lo
                &&& p.result_commit_lo == 0 || pi(pis, 5) == p.result_commit_lo
                &&& pi(pis, 6) == p.join_unmatched_count
            }
            &&& tag == TAG_GROUP_BY ==> {
                &&& p.group_output_lo == 0 || pi(pis, 5) == p.group_output_lo
                &&& p.result_commit_lo == 0 || pi(pis, 6) == p.result_commit_lo
                &&& p.group_vals_snap_lo == 0 || pi(pis, 7) == p.group_vals_snap_lo
            }
        }),
{
}

/// A commitment that is recorded in both was replaced.
pub open spec fn replaced(a: u64, b: u64) -> bool {
    a != 0 && b != 0 && a != b
}

/// What `q` records of a proof by the circuit with the given tag differs from what
/// `p` records: the first eight bytes of snapshot root or query hash, a number
/// that is always recorded, or a commitment that both record.
pub open spec fn altered(tag: u8, p: PublicInputs, q: PublicInputs) -> bool {
    ||| p.snapshot_root@.take(8) != q.snapshot_root@.take(8)
    ||| p.query_hash@.take(8) != q.query_hash@.take(8)
    ||| tag == TAG_AGG && {
        ||| p.result_row_count != q.result_row_count
        ||| p.result_sum != q.result_sum
        ||| replaced(p.result_commit_lo, q.result_commit_lo)
        ||| p.pred_op != q.pred_op
        ||| p.pred_op != 0 && p.pred_val != q.pred_val
        ||| replaced(p.agg_n_real, q.agg_n_real)
    }
    ||| (tag == TAG_SORT || tag == TAG_DESC_SORT) && {
        ||| replaced(p.result_commit_lo, q.result_commit_lo)
        ||| replaced(p.sort_secondary_snap_lo, q.sort_secondary_snap_lo)
        ||| replaced(p.sort_secondary_hi_snap_lo, q.sort_secondary_hi_snap_lo)
    }
    ||| tag == TAG_JOIN && {
        ||| replaced(p.join_right_snap_lo, q.join_right_snap_lo)
        ||| replaced(p.result_commit_lo, q.result_commit_lo)
        ||| p.join_unmatched_count != q.join_unmatched_count
    }
    ||| tag == TAG_GROUP_BY && {
        ||| replaced(p.group_output_lo, q.group_output_lo)
        ||| replaced(p.result_commit_lo, q.result_commit_lo)
        ||| replaced(p.group_vals_snap_lo, q.group_vals_snap_lo)
    }
}

/// Tampering shows: an artifact that records other things of the same proof than
/// a valid artifact does is rejected.
pub proof fn tampered_artifact_fails(
    a: ProofArtifact,
    b: ProofArtifact,
    checked: Result<(), String>,
    public_values: Result<Vec<u64>, String>,
)
    requires
        rejection(a, checked, public_values) is None,
        key_tag(b.verification_key_bytes@) == key_tag(a.verification_key_bytes@),
        altered(key_tag(a.verification_key_bytes@), a.public_inputs, b.public_inputs),
    ensures
        rejection(b, checked, public_values) is Some,
{
    let p = a.public_inputs;
    let q = b.public_inputs;
    if p.snapshot_root@.take(8) != q.snapshot_root@.take(8) {
        root_lo_differs(p.snapshot_root@, q.snapshot_root@);
    }
    if p.query_hash@.take(8) != q.query_hash@.take(8) {
        root_lo_differs(p.query_hash@, q.query_hash@);
    }
}

/// Roots that differ in their first eight bytes hold different numbers.
proof fn root_lo_differs(a: Seq<u8>, b: Seq<u8>)
    requires
        a.len() >= 8,
        b.len() >= 8,
        a.take(8) != b.take(8),
    ensures
        root_lo(a) != root_lo(b),
{
    le_value_bound(a.take(8));
    le_value_bound(b.take(8));
    pow256_8();
    if le_value(a.take(8)) == le_value(b.take(8)) {
        le_value_injective(a.take(8), b.take(8));
    }
}

/// The commitment in a built snapshot root is canonical and is read back.
proof fn built_root(h: FieldHash, w: WitnessTrace, values: Seq<u64>)
    requires
        is_field_hash(h),
        w.snapshot_root@ == root_bytes(snap_lo(h, MAX_ROWS as nat, values)),
    ensures
        root_lo(w.snapshot_root@) == snap_lo(h, MAX_ROWS as nat, values),
        root_lo(w.snapshot_root@) < MODULUS,
{
    root_roundtrip(snap_lo(h, MAX_ROWS as nat, values));
    assert(h(padded(values, MAX_ROWS as nat))[0] < MODULUS);
}

/// A sort that was built can be proved: the circuit accepts the witness that is
/// built from at most `MAX_ROWS` rows, where the primary elements are canonical
/// and the sorted column rises or falls in steps within bounds.
pub proof fn built_sort_accepted(
    h: FieldHash,
    rows: Seq<Seq<u8>>,
    descending: bool,
    w: WitnessTrace,
)
    requires
        is_field_hash(h),
        rows.len() <= MAX_ROWS,
        canonical_words(primaries(rows)),
        w.snapshot_root@ == root_bytes(snap_lo(h, MAX_ROWS as nat, primaries(rows))),
        sorted_shape(h, rows, descending, w.input_columns@, w.columns@),
        sorted_in_steps(column_words(w.columns@, 0), descending),
    ensures
        witness_accepted(
            h,
            if descending {
                TAG_DESC_SORT
            } else {
                TAG_SORT
            },
            w,
        ),
{
    built_root(h, w, primaries(rows));
    let s = choose|s: Seq<KeyedRow>|
        {
            &&& #[trigger] sorted_rows(s, descending)
            &&& s.to_multiset() == keyed_rows(h, rows).to_multiset()
            &&& w.columns@[0].holds("__primary_out"@, component(s, 0))
            &&& w.columns@[1].holds("__secondary_out"@, component(s, 1))
            &&& w.columns@[2].holds("__secondary_out_hi"@, component(s, 2))
        };
    let k = keyed_rows(h, rows);
    s.to_multiset_ensures();
    k.to_multiset_ensures();
    let v = sort_values(w);
    if rows.len() == 0 {
        assert(v.out_vals.reverse() =~= v.in_vals);
        assert(v.in_vals =~= primaries(rows));
    }
    assert(v.in_vals == primaries(rows));
    assert(row_triples(v.in_vals, v.in_lo, v.in_hi) =~= k);
    assert(row_triples(v.out_vals, v.out_lo, v.out_hi) =~= s);
    assert forall|i: int| 0 <= i < rows.len() implies h(packed_words(#[trigger] rows[i]))[0]
        < MODULUS && h(packed_words(rows[i]))[1] < MODULUS by {}
    assert forall|i: int| 0 <= i < s.len() implies {
        &&& (#[trigger] s[i]).0 < MODULUS
        &&& s[i].1 < MODULUS
        &&& s[i].2 < MODULUS
    } by {
        assert(s.contains(s[i]));
        assert(s.to_multiset().count(s[i]) > 0);
        assert(k.contains(s[i]));
        let j = choose|j: int| 0 <= j < k.len() && k[j] == s[i];
        assert(primaries(rows)[j] < MODULUS);
        assert(h(packed_words(rows[j]))[0] < MODULUS);
    }
    assert(canonical_words(v.in_lo)) by {
        assert forall|i: int| 0 <= i < v.in_lo.len() implies #[trigger] v.in_lo[i] < MODULUS by {
            assert(h(packed_words(rows[i]))[0] < MODULUS);
        }
    }
    assert(canonical_words(v.in_hi)) by {
        assert forall|i: int| 0 <= i < v.in_hi.len() implies #[trigger] v.in_hi[i] < MODULUS by {
            assert(h(packed_words(rows[i]))[1] < MODULUS);
        }
    }
    assert(canonical_words(v.out_vals)) by {
        assert forall|i: int| 0 <= i < v.out_vals.len() implies #[trigger] v.out_vals[i]
            < MODULUS by {
            assert(s[i].0 < MODULUS);
        }
    }
    assert(canonical_words(v.out_lo)) by {
        assert forall|i: int| 0 <= i < v.out_lo.len() implies #[trigger] v.out_lo[i] < MODULUS by {
            assert(s[i].1 < MODULUS);
        }
    }
    assert(canonical_words(v.out_hi)) by {
        assert forall|i: int| 0 <= i < v.out_hi.len() implies #[trigger] v.out_hi[i] < MODULUS by {
            assert(s[i].2 < MODULUS);
        }
    }
    assert(sortable(v, descending));
    sort_complete(h, v, root_lo(w.snapshot_root@), root_lo(w.query_hash@), descending);
}

/// A grouping that was built can be proved: the circuit accepts the witness that
/// is built from at most `MAX_ROWS` rows, where the keys are canonical and the
/// sorted keys rise in steps within bounds.
pub proof fn built_group_accepted(h: FieldHash, rows: Seq<Seq<u8>>, w: WitnessTrace)
    requires
        is_field_hash(h),
        rows.len() <= MAX_ROWS,
        canonical_words(primaries(rows)),
        w.snapshot_root@ == root_bytes(snap_lo(h, MAX_ROWS as nat, primaries(rows))),
        grouped_shape(rows, w.input_columns@, w.columns@),
        sorted_in_steps(column_words(w.columns@, 0), false),
    ensures
        witness_accepted(h, TAG_GROUP_BY, w),
{
    built_root(h, w, primaries(rows));
    let ins = group_in_keys(w);
    let outs = column_words(w.columns@, 0);
    ins.to_multiset_ensures();
    outs.to_multiset_ensures();
    assert forall|i: int| 0 <= i < outs.len() implies #[trigger] outs[i] < MODULUS by {
        assert(outs.contains(outs[i]));
        assert(outs.to_multiset().count(outs[i]) > 0);
        assert(ins.contains(outs[i]));
        let j = choose|j: int| 0 <= j < ins.len() && ins[j] == outs[i];
        assert(primaries(rows)[j] < MODULUS);
    }
    let f = |v: u64| v as int;
    mapped_permutation(ins, outs, f);
    assert(ins.map_values(f) =~= elements(ins));
    assert(outs.map_values(f) =~= elements(outs));
    group_complete(
        h,
        ins,
        outs,
        group_values(w),
        root_lo(w.snapshot_root@),
        root_lo(w.query_hash@),
    );
}

/// An aggregate that was built can be proved: the circuit accepts the witness
/// that is built from any rows.
pub proof fn built_aggregate_accepted(h: FieldHash, rows: Seq<Seq<u8>>, w: WitnessTrace)
    requires
        is_field_hash(h),
        w.snapshot_root@ == root_bytes(snap_lo(h, MAX_ROWS as nat, primaries(rows))),
        plain_shape(rows, w.input_columns@, w.columns@),
        w.filter_op == 0,
    ensures
        witness_accepted(h, TAG_AGG, w),
{
    built_root(h, w, primaries(rows));
    let values = agg_values(w);
    assert(padded(values, MAX_ROWS as nat) =~= padded(primaries(rows), MAX_ROWS as nat));
    agg_complete_unfiltered(h, values, root_lo(w.snapshot_root@), w.filter_val);
}

/// A join that was built can be proved: the circuit accepts the witness that is
/// built from rows with canonical keys, all of them selected.
pub proof fn built_join_accepted(h: FieldHash, rows: Seq<Seq<u8>>, w: WitnessTrace)
    requires
        is_field_hash(h),
        canonical_words(primaries(rows)),
        w.snapshot_root@ == root_bytes(snap_lo(h, MAX_ROWS as nat, primaries(rows))),
        plain_shape(rows, w.input_columns@, w.columns@),
        w.selected@ == Seq::new(rows.len(), |i: int| true),
    ensures
        witness_accepted(h, TAG_JOIN, w),
{
    built_root(h, w, primaries(rows));
    let left = column_words(w.columns@, 0);
    let selected = join_selected(w);
    assert(left == primaries(rows));
    assert forall|i: int| 0 <= i < MAX_ROWS implies #[trigger] selector_column(selected)[i] == bit(
        i < join_rows_used(left.len(), left.len()) && front(left)[i] == front(left)[i],
    ) by {}
    join_complete(
        h,
        left,
        join_right_keys(w),
        join_left_values(w),
        selected,
        root_lo(w.snapshot_root@),
    );
}

/// The column that the first public input of the circuit with the given tag
/// commits to.
pub open spec fn committed_column(tag: u8, w: WitnessTrace) -> Seq<u64> {
    if tag == TAG_SORT || tag == TAG_DESC_SORT {
        sort_values(w).in_vals
    } else if tag == TAG_GROUP_BY {
        group_in_keys(w)
    } else {
        column_words(w.columns@, 0)
    }
}

/// A wrong commitment is refused: no circuit accepts a witness whose snapshot
/// root holds another field element than the commitment to its rows.
pub proof fn wrong_commitment_refused(h: FieldHash, tag: u8, w: WitnessTrace)
    requires
        residue(root_lo(w.snapshot_root@)) != snap_lo(
            h,
            MAX_ROWS as nat,
            committed_column(tag, w),
        ),
    ensures
        !witness_accepted(h, tag, w),
{
    let n = MAX_ROWS as nat;
    assert(padded(agg_values(w), n) =~= padded(column_words(w.columns@, 0), n));
}

/// The challenges of a proof of the witness.
pub open spec fn challenges(h: FieldHash, w: WitnessTrace) -> Seq<u64> {
    h(seq![residue(root_lo(w.snapshot_root@)), residue(root_lo(w.query_hash@))])
}

/// Other values are refused: no sort circuit accepts a witness whose sorted
/// column is not a permutation of the unsorted one, but for rows that collide.
/// Columns of different lengths are refused in any case.
pub proof fn other_values_refused(h: FieldHash, w: WitnessTrace, descending: bool)
    requires
        sort_values(w).in_vals.len() == sort_values(w).out_vals.len() ==> rows_given(
            sort_values(w),
        ),
        sort_values(w).in_vals.to_multiset() != sort_values(w).out_vals.to_multiset(),
    ensures
        witness_accepted(
            h,
            if descending {
                TAG_DESC_SORT
            } else {
                TAG_SORT
            },
            w,
        ) ==> sort_collides(sort_inputs(sort_values(w), descending), challenges(h, w)),
{
    let v = sort_values(w);
    if v.in_vals.len() == v.out_vals.len() {
        sort_refused(h, v, root_lo(w.snapshot_root@), root_lo(w.query_hash@), descending);
    }
}

/// Other keys are refused: the grouping circuit accepts no witness whose sorted
/// keys are not a permutation of the unsorted ones, but for columns that collide.
/// Columns of different lengths are refused in any case.
pub proof fn other_keys_refused(h: FieldHash, w: WitnessTrace)
    requires
        group_in_keys(w).len() == column_words(w.columns@, 0).len() ==> keys_given(
            group_in_keys(w),
            column_words(w.columns@, 0),
        ),
        group_in_keys(w).to_multiset() != column_words(w.columns@, 0).to_multiset(),
    ensures
        witness_accepted(h, TAG_GROUP_BY, w) ==> group_collides(
            group_inputs(group_in_keys(w), column_words(w.columns@, 0), group_values(w)),
            challenges(h, w)[0],
        ),
{
    let ins = group_in_keys(w);
    let outs = column_words(w.columns@, 0);
    if ins.len() == outs.len() {
        if keys_permuted(ins, outs) {
            let f = |v: int| v as u64;
            mapped_permutation(elements(ins), elements(outs), f);
            assert(elements(ins).map_values(f) =~= ins);
            assert(elements(outs).map_values(f) =~= outs);
        }
        group_refused(
            h,
            ins,
            outs,
            group_values(w),
            root_lo(w.snapshot_root@),
            root_lo(w.query_hash@),
        );
    }
}

/// Row `i` of a join witness is selected though its keys are different field
/// elements.
pub open spec fn false_match(w: WitnessTrace, i: int) -> bool {
    let left = column_words(w.columns@, 0);
    let right = join_right_keys(w);
    let selected = join_selected(w);
    &&& 0 <= i < MAX_ROWS
    &&& i < left.len()
    &&& i < right.len()
    &&& i < selected.len()
    &&& selected[i]
    &&& residue(left[i]) != residue(right[i])
}

/// A false match is refused: the join circuit accepts no witness that selects a
/// row whose left and right keys are different field elements.
pub proof fn false_match_refused(h: FieldHash, w: WitnessTrace, i: int)
    requires
        false_match(w, i),
    ensures
        !witness_accepted(h, TAG_JOIN, w),
{
    let c = join_inputs(
        column_words(w.columns@, 0),
        join_right_keys(w),
        join_left_values(w),
        join_selected(w),
    );
    assert(!join_row(c, i));
}

/// The witness is wrong: its root holds another element than the commitment to
/// its rows, its sorted column is not a permutation of the unsorted one, or it
/// selects a false match.
pub open spec fn faulty(h: FieldHash, tag: u8, w: WitnessTrace) -> bool {
    ||| residue(root_lo(w.snapshot_root@)) != snap_lo(
        h,
        MAX_ROWS as nat,
        committed_column(tag, w),
    )
    ||| (tag == TAG_SORT || tag == TAG_DESC_SORT || tag == TAG_GROUP_BY) && committed_column(
        tag,
        w,
    ).to_multiset() != column_words(w.columns@, 0).to_multiset()
    ||| tag == TAG_JOIN && exists|i: int| #[trigger] false_match(w, i)
}

/// The columns of a sort or grouping witness are canonical, and at most
/// `MAX_ROWS` long where they are of one length.
pub open spec fn columns_given(tag: u8, w: WitnessTrace) -> bool {
    committed_column(tag, w).len() == column_words(w.columns@, 0).len() ==> {
        &&& tag == TAG_SORT || tag == TAG_DESC_SORT ==> rows_given(sort_values(w))
        &&& tag == TAG_GROUP_BY ==> keys_given(group_in_keys(w), column_words(w.columns@, 0))
    }
}

/// The grand products of a sort or grouping witness agree by chance: the rows are
/// not permuted, and the challenges hit one of the few elements at which their
/// products meet.
pub open spec fn witness_collides(h: FieldHash, tag: u8, w: WitnessTrace) -> bool {
    ||| tag == TAG_SORT && sort_collides(sort_inputs(sort_values(w), false), challenges(h, w))
    ||| tag == TAG_DESC_SORT && sort_collides(sort_inputs(sort_values(w), true), challenges(h, w))
    ||| tag == TAG_GROUP_BY && group_collides(
        group_inputs(group_in_keys(w), column_words(w.columns@, 0), group_values(w)),
        challenges(h, w)[0],
    )
}

/// Collisions of a witness are rare: the first challenge is one of at most
/// `MAX_ROWS` elements of the field, which the columns fix, or two different rows
/// of a sort fold into one element under the second and third challenge.
pub proof fn witness_collisions_are_few(h: FieldHash, tag: u8, w: WitnessTrace)
    requires
        is_field_hash(h),
        witness_collides(h, tag, w),
    ensures
        ({
            let r = challenges(h, w);
            if tag == TAG_GROUP_BY {
                let c = group_inputs(group_in_keys(w), column_words(w.columns@, 0), group_values(w));
                let bad = colliding(elements(c.ins), elements(c.outs));
                bad.contains(r[0] as int) && bad.finite() && bad.len() <= MAX_ROWS
            } else {
                let c = sort_inputs(sort_values(w), tag == TAG_DESC_SORT);
                let bad = colliding(
                    folded(c.ins, c.in_lo, c.in_hi, r),
                    folded(c.outs, c.out_lo, c.out_hi, r),
                );
                rows_collide(rows_in(c), rows_out(c), r) || (bad.contains(r[0] as int)
                    && bad.finite() && bad.len() <= MAX_ROWS)
            }
        }),
{
    let r = challenges(h, w);
    assert(r[0] < MODULUS);
    if tag == TAG_GROUP_BY {
        let c = group_inputs(group_in_keys(w), column_words(w.columns@, 0), group_values(w));
        group_collisions_are_few(c, r[0]);
    } else {
        let c = sort_inputs(sort_values(w), tag == TAG_DESC_SORT);
        sort_collisions_are_few(c, r);
    }
}

/// What is wrong is not proved: no circuit accepts a faulty witness, so that no
/// artifact comes of it, but for sorts and groupings that collide.
pub proof fn faulty_witness_refused(h: FieldHash, tag: u8, w: WitnessTrace)
    requires
        columns_given(tag, w),
        faulty(h, tag, w),
    ensures
        witness_accepted(h, tag, w) ==> witness_collides(h, tag, w),
{
    let snap = residue(root_lo(w.snapshot_root@));
    if snap != snap_lo(h, MAX_ROWS as nat, committed_column(tag, w)) {
        wrong_commitment_refused(h, tag, w);
    } else if tag == TAG_SORT || tag == TAG_DESC_SORT {
        other_values_refused(h, w, tag == TAG_DESC_SORT);
    } else if tag == TAG_GROUP_BY {
        other_keys_refused(h, w);
    } else {
        let i = choose|i: int| #[trigger] false_match(w, i);
        false_match_refused(h, w, i);
    }
}

/// The number of sorts, joins and aggregates of a logical plan.
pub open spec fn operator_count(l: LogicalNode) -> nat
    decreases l,
{
    match l {
        LogicalNode::TableScan { .. } => 0,
        LogicalNode::Filter { input, .. } => operator_count(*input),
        LogicalNode::Projection { input, .. } => operator_count(*input),
        LogicalNode::Aggregate { input, .. } => operator_count(*input) + 1,
        LogicalNode::Sort { input, .. } => operator_count(*input) + 1,
        LogicalNode::Limit { input, .. } => operator_count(*input),
        LogicalNode::Join { left, right, .. } => operator_count(*left) + operator_count(*right) + 1,
    }
}

/// The operators that need circuits of their own, in a concatenation.
proof fn own_circuits_concat(a: Seq<ProvingTask>, b: Seq<ProvingTask>, n: int)
    requires
        0 <= n <= b.len(),
    ensures
        own_circuits(a + b, a.len() + n) == own_circuits(a, a.len() as int) + own_circuits(b, n),
    decreases n,
{
    if n == 0 {
        own_circuits_prefix(a, b, a.len() as int);
    } else {
        own_circuits_concat(a, b, n - 1);
        assert((a + b)[a.len() + n - 1] == b[n - 1]);
    }
}

proof fn own_circuits_prefix(a: Seq<ProvingTask>, b: Seq<ProvingTask>, n: int)
    requires
        0 <= n <= a.len(),
    ensures
        own_circuits(a + b, n) == own_circuits(a, n),
    decreases n,
{
    if n > 0 {
        own_circuits_prefix(a, b, n - 1);
        assert((a + b)[n - 1] == a[n - 1]);
    }
}

/// What one more task adds.
proof fn own_circuits_last(tasks: Seq<ProvingTask>)
    requires
        tasks.len() > 0,
    ensures
        ({
            let op = tasks.last().operator;
            own_circuits(tasks, tasks.len() as int) == own_circuits(
                tasks.drop_last(),
                tasks.len() - 1,
            ) + if op is Sort || op is HashJoin || op is MergeAggregate {
                1nat
            } else {
                0nat
            }
        }),
{
    let t = tasks.drop_last();
    own_circuits_prefix(t, seq![tasks.last()], t.len() as int);
    assert(t + seq![tasks.last()] =~= tasks);
}

/// A partial aggregate comes with one that merges it.
spec fn merged(tasks: Seq<ProvingTask>) -> bool {
    partials(tasks, tasks.len() as int) ==> merges(tasks, tasks.len() as int)
}

proof fn merged_concat(a: Seq<ProvingTask>, b: Seq<ProvingTask>)
    requires
        merged(a),
        merged(b),
    ensures
        merged(a + b),
{
    let t = a + b;
    if partials(t, t.len() as int) {
        let k = choose|k: int|
            0 <= k < t.len() && (#[trigger] t[k]).operator is PartialAggregate;
        if k < a.len() {
            assert(a[k] == t[k]);
            let m = choose|m: int|
                0 <= m < a.len() && (#[trigger] a[m]).operator is MergeAggregate;
            assert(t[m] == a[m]);
        } else {
            assert(b[k - a.len()] == t[k]);
            let m = choose|m: int|
                0 <= m < b.len() && (#[trigger] b[m]).operator is MergeAggregate;
            assert(t[a.len() + m] == b[m]);
        }
    }
}

/// One more task that is no partial aggregate.
proof fn merged_push(tasks: Seq<ProvingTask>)
    requires
        tasks.len() > 0,
        merged(tasks.drop_last()),
        !(tasks.last().operator is PartialAggregate),
    ensures
        merged(tasks),
{
    let one = seq![tasks.last()];
    assert(merged(one)) by {
        assert(one[0] == tasks.last());
    }
    merged_concat(tasks.drop_last(), one);
    assert(tasks.drop_last() + one =~= tasks);
}

/// The tasks of a translated plan.
proof fn planned_counts(l: LogicalNode, p: PhysicalNode, tasks: Seq<ProvingTask>, chunks: Seq<u32>)
    requires
        translates(l, p, chunks),
        plan_tasks(p, tasks),
    ensures
        own_circuits(tasks, tasks.len() as int) == operator_count(l),
        merged(tasks),
    decreases l,
{
    own_circuits_last(tasks);
    let t = tasks.drop_last();
    match l {
        LogicalNode::TableScan { .. } => {
            assert(own_circuits(t, 0) == 0);
            assert(merged(t));
            merged_push(tasks);
        },
        LogicalNode::Filter { input, .. } => {
            planned_counts(*input, *p->Filter_input, t, chunks);
            merged_push(tasks);
        },
        LogicalNode::Projection { input, .. } => {
            planned_counts(*input, *p->Projection_input, t, chunks);
            merged_push(tasks);
        },
        LogicalNode::Aggregate { input, .. } => {
            let partial = *p->MergeAggregate_input;
            assert(plan_tasks(partial, t));
            let u = t.drop_last();
            planned_counts(*input, *partial->PartialAggregate_input, u, chunks);
            own_circuits_last(t);
            assert(merged(tasks)) by {
                assert(tasks[tasks.len() - 1].operator is MergeAggregate);
            }
        },
        LogicalNode::Sort { input, .. } => {
            planned_counts(*input, *p->Sort_input, t, chunks);
            merged_push(tasks);
        },
        LogicalNode::Limit { input, .. } => {
            planned_counts(*input, *p->Limit_input, t, chunks);
            merged_push(tasks);
        },
        LogicalNode::Join { left, right, .. } => {
            let k = node_count(*p->HashJoin_left) as int;
            let a = tasks.take(k);
            let b = tasks.subrange(k, tasks.len() - 1);
            planned_counts(*left, *p->HashJoin_left, a, chunks);
            planned_counts(*right, *p->HashJoin_right, b, chunks);
            assert(t =~= a + b);
            own_circuits_concat(a, b, b.len() as int);
            merged_concat(a, b);
            merged_push(tasks);
        },
    }
}

/// Planning keeps count: the operators of a planned query that need a proof of
/// their own are its sorts, joins and aggregates, where the two phases of an
/// aggregate are one. A query with more than one of them is not supported.
pub proof fn planned_operators_counted(
    l: LogicalNode,
    p: PhysicalNode,
    tasks: Seq<ProvingTask>,
    chunks: Seq<u32>,
)
    requires
        translates(l, p, chunks),
        plan_tasks(p, tasks),
    ensures
        provable_operators(tasks) == operator_count(l),
        operator_count(l) > 1 ==> unsupported(tasks) is Some,
{
    planned_counts(l, p, tasks, chunks);
}

} // verus!
