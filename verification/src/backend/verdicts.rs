//! What artifacts record of their witnesses, and which artifacts are valid.

use vstd::prelude::*;

use crate::backend::classify::TAG_AGG;
use crate::backend::classify::TAG_DESC_SORT;
use crate::backend::classify::TAG_GROUP_BY;
use crate::backend::classify::TAG_JOIN;
use crate::backend::classify::TAG_SORT;
use crate::backend::laws::altered;
use crate::backend::laws::tampered_artifact_fails;
use crate::backend::outcomes::aggregate_counts_cells;
use crate::backend::outcomes::cell;
use crate::backend::outcomes::count_over;
use crate::backend::outcomes::element;
use crate::backend::outcomes::group_counts_cells;
use crate::backend::outcomes::hashed_column;
use crate::backend::outcomes::height;
use crate::backend::outcomes::join_counts_matches;
use crate::backend::outcomes::keys_agree;
use crate::backend::outcomes::leading_word;
use crate::backend::outcomes::longer;
use crate::backend::outcomes::meets;
use crate::backend::outcomes::right_column;
use crate::backend::outcomes::root_word;
use crate::backend::outcomes::sort_counts_cells;
use crate::backend::outcomes::sum_over;
use crate::backend::outcomes::taken;
use crate::backend::outcomes::value_cell;
use crate::backend::plonky2::witness_accepted;
use crate::backend::plonky2::witness_statement;
use crate::backend::plonky2::Plonky2CircuitHandle;
use crate::backend::verify::judged;
use crate::backend::verify::sealed;
use crate::circuit::system::FieldHash;
use crate::circuit::witness::WitnessTrace;
use crate::outside::blake3_digest;
use crate::proofs::artifacts::ProofArtifact;
use crate::proofs::artifacts::PublicInputs;
use crate::proofs::artifacts::VerificationResult;

verus! {

/// An artifact carries its proof: the bytes as they are, the verification key
/// behind the tag of its circuit, the roots of the witness in full, and a digest
/// that binds roots, claimed result and the first 32 bytes of the proof together.
pub proof fn artifact_carries_its_proof(
    a: ProofArtifact,
    handle: Plonky2CircuitHandle,
    w: WitnessTrace,
    raw_vk: Seq<u8>,
    proof_bytes: Seq<u8>,
    pis: Seq<u64>,
    at: u64,
)
    requires
        sealed(a, handle, w, raw_vk, proof_bytes, pis, at),
    ensures
        a.query_id == handle.query_id,
        a.snapshot_id == handle.snapshot_id,
        a.backend is Plonky2,
        a.proof_system is Plonky2Snark,
        a.capabilities.proof_scope is SingleOperator,
        a.capabilities.dataset_binding is Full,
        a.capabilities.join_completeness_proved,
        !a.capabilities.group_output_decomposed,
        a.capabilities.result_commitment_kind is PoseidonProved,
        a.proof_bytes@ == proof_bytes,
        a.created_at_ms == at,
        a.verification_key_bytes@.len() == raw_vk.len() + 1,
        a.verification_key_bytes@[0] == handle.circuit.spec_tag(),
        forall|i: int|
            0 <= i < raw_vk.len() ==> a.verification_key_bytes@[i + 1] == #[trigger] raw_vk[i],
        a.public_inputs.snapshot_root == w.snapshot_root,
        a.public_inputs.query_hash == w.query_hash,
        proof_bytes.len() >= 32 ==> a.public_inputs.result_commitment@ == blake3_digest(
            w.snapshot_root@ + w.query_hash@ + w.result_commitment@ + proof_bytes.subrange(0, 32),
        ),
        proof_bytes.len() < 32 ==> a.public_inputs.result_commitment@ == blake3_digest(
            w.snapshot_root@ + w.query_hash@ + w.result_commitment@ + proof_bytes,
        ),
{
    if proof_bytes.len() == 32 {
        assert(proof_bytes.subrange(0, 32) =~= proof_bytes);
    } else if proof_bytes.len() > 32 {
        assert(proof_bytes.subrange(0, 32) =~= proof_bytes.take(32));
    }
    assert forall|i: int| 0 <= i < raw_vk.len() implies a.verification_key_bytes@[i + 1]
        == #[trigger] raw_vk[i] by {}
}

/// The artifact of an aggregate records the answer: the number of the first 128
/// cells that meet the predicate, their sum in the field, the predicate itself,
/// and the number of cells. It records nothing of other circuits.
pub proof fn aggregate_artifact_records_the_answer(
    h: FieldHash,
    a: ProofArtifact,
    handle: Plonky2CircuitHandle,
    w: WitnessTrace,
    raw_vk: Seq<u8>,
    proof_bytes: Seq<u8>,
    at: u64,
)
    requires
        handle.circuit.spec_tag() == TAG_AGG,
        sealed(a, handle, w, raw_vk, proof_bytes, witness_statement(h, TAG_AGG, w), at),
    ensures
        ({
            let p = a.public_inputs;
            let n = taken(height(w.columns@, 0));
            let hit = |i: int| meets(w.filter_op, cell(w.columns@, 0, i), w.filter_val);
            &&& p.result_row_count == count_over(n, hit)
            &&& p.result_sum == sum_over(
                n,
                |i: int|
                    if hit(i) {
                        cell(w.columns@, 0, i) as int
                    } else {
                        0
                    },
            ) % 0xFFFF_FFFF_0000_0001
            &&& p.result_commit_lo == h(seq![p.result_sum, p.result_row_count])[0]
            &&& p.pred_op == element(w.filter_op)
            &&& p.pred_val == element(w.filter_val)
            &&& p.agg_n_real == n
            &&& p.group_output_lo == 0
            &&& p.group_vals_snap_lo == 0
            &&& p.join_right_snap_lo == 0
            &&& p.join_unmatched_count == 0
            &&& p.sort_secondary_snap_lo == 0
            &&& p.sort_secondary_hi_snap_lo == 0
        }),
{
    aggregate_counts_cells(h, w);
}

/// The artifact of a join records the answer: the sum, in the field, of the values
/// of the rows whose keys agree, and the number of all other rows of the circuit;
/// the number of rows is the one that the witness claims.
pub proof fn join_artifact_records_the_answer(
    h: FieldHash,
    a: ProofArtifact,
    handle: Plonky2CircuitHandle,
    w: WitnessTrace,
    raw_vk: Seq<u8>,
    proof_bytes: Seq<u8>,
    at: u64,
)
    requires
        handle.circuit.spec_tag() == TAG_JOIN,
        witness_accepted(h, TAG_JOIN, w),
        sealed(a, handle, w, raw_vk, proof_bytes, witness_statement(h, TAG_JOIN, w), at),
    ensures
        ({
            let p = a.public_inputs;
            let cols = w.columns@;
            let n = taken(longer(height(cols, 0), height(cols, right_column(cols))));
            let matches_found = count_over(n, |i: int| keys_agree(cols, i));
            &&& p.result_sum == sum_over(
                n,
                |i: int|
                    if keys_agree(cols, i) {
                        value_cell(cols, 2, i) as int
                    } else {
                        0
                    },
            ) % 0xFFFF_FFFF_0000_0001
            &&& p.join_unmatched_count == 128 - matches_found
            &&& p.result_commit_lo == h(seq![p.result_sum, matches_found as u64])[0]
            &&& p.join_right_snap_lo == w.join_right_snap_lo
            &&& p.result_row_count == w.result_row_count
            &&& p.group_output_lo == 0
            &&& p.group_vals_snap_lo == 0
            &&& p.pred_op == 0
            &&& p.pred_val == 0
            &&& p.agg_n_real == 0
            &&& p.sort_secondary_snap_lo == 0
            &&& p.sort_secondary_hi_snap_lo == 0
        }),
{
    join_counts_matches(h, w);
}

/// The artifact of a grouping records the answer: the sum of the values of all
/// rows, in the field, and the hash of the values after the padding; the
/// commitment to the groups and the number of rows are those of the witness.
pub proof fn group_artifact_records_the_answer(
    h: FieldHash,
    a: ProofArtifact,
    handle: Plonky2CircuitHandle,
    w: WitnessTrace,
    raw_vk: Seq<u8>,
    proof_bytes: Seq<u8>,
    at: u64,
)
    requires
        handle.circuit.spec_tag() == TAG_GROUP_BY,
        witness_accepted(h, TAG_GROUP_BY, w),
        sealed(a, handle, w, raw_vk, proof_bytes, witness_statement(h, TAG_GROUP_BY, w), at),
    ensures
        ({
            let p = a.public_inputs;
            let n = taken(height(w.columns@, 0));
            &&& p.result_sum == sum_over(n, |i: int| value_cell(w.columns@, 1, i) as int)
                % 0xFFFF_FFFF_0000_0001
            &&& p.result_commit_lo == h(seq![p.result_sum, n as u64])[0]
            &&& p.group_vals_snap_lo == h(
                Seq::new(128, |i: int| element(value_cell(w.columns@, 1, i - (128 - n)))),
            )[0]
            &&& p.group_output_lo == w.group_output_lo
            &&& p.result_row_count == w.result_row_count
            &&& p.join_right_snap_lo == 0
            &&& p.join_unmatched_count == 0
            &&& p.pred_op == 0
            &&& p.pred_val == 0
            &&& p.agg_n_real == 0
            &&& p.sort_secondary_snap_lo == 0
            &&& p.sort_secondary_hi_snap_lo == 0
        }),
{
    group_counts_cells(h, w);
}

/// The artifact of a sort records the hashes of the unsorted fingerprints, and the
/// hash of sum and number of the sorted values; the number of rows is the one that
/// the witness claims, and no sum is recorded.
pub proof fn sort_artifact_records_the_answer(
    h: FieldHash,
    a: ProofArtifact,
    handle: Plonky2CircuitHandle,
    w: WitnessTrace,
    descending: bool,
    raw_vk: Seq<u8>,
    proof_bytes: Seq<u8>,
    at: u64,
)
    requires
        handle.circuit.spec_tag() == (if descending {
            TAG_DESC_SORT
        } else {
            TAG_SORT
        }),
        witness_accepted(h, handle.circuit.spec_tag(), w),
        sealed(
            a,
            handle,
            w,
            raw_vk,
            proof_bytes,
            witness_statement(h, handle.circuit.spec_tag(), w),
            at,
        ),
    ensures
        ({
            let p = a.public_inputs;
            let n = taken(height(w.columns@, 0));
            let sum = sum_over(n, |i: int| cell(w.columns@, 0, i) as int) % 0xFFFF_FFFF_0000_0001;
            &&& p.sort_secondary_snap_lo == h(hashed_column(w.input_columns@, 1))[0]
            &&& p.sort_secondary_hi_snap_lo == h(hashed_column(w.input_columns@, 2))[0]
            &&& p.result_commit_lo == h(seq![sum as u64, n as u64])[0]
            &&& p.result_sum == 0
            &&& p.result_row_count == w.result_row_count
            &&& p.group_output_lo == 0
            &&& p.group_vals_snap_lo == 0
            &&& p.join_right_snap_lo == 0
            &&& p.join_unmatched_count == 0
            &&& p.pred_op == 0
            &&& p.pred_val == 0
            &&& p.agg_n_real == 0
        }),
{
    sort_counts_cells(h, w, descending);
}

/// An honest artifact is valid. If the proof system accepts the proof, and the
/// artifact was sealed from the proof of a witness, then the verdict is that it is
/// valid, without an error, of the snapshot and the query of the witness; a join
/// is not called complete, and everything else is. The first words of snapshot
/// root and query hash must be canonical, and what the witness says of the groups
/// or of the right side of a join must be what the proof says, or nothing.
#[verifier::rlimit(40)]
pub proof fn honest_artifact_is_valid(
    h: FieldHash,
    a: ProofArtifact,
    handle: Plonky2CircuitHandle,
    w: WitnessTrace,
    raw_vk: Seq<u8>,
    proof_bytes: Seq<u8>,
    at: u64,
    checked: Result<(), String>,
    values: Vec<u64>,
    r: VerificationResult,
)
    requires
        checked is Ok,
        values@ == witness_statement(h, handle.circuit.spec_tag(), w),
        sealed(a, handle, w, raw_vk, proof_bytes, values@, at),
        leading_word(w.snapshot_root@) < 0xFFFF_FFFF_0000_0001,
        leading_word(w.query_hash@) < 0xFFFF_FFFF_0000_0001,
        handle.circuit.spec_tag() == TAG_GROUP_BY ==> w.group_output_lo == 0 || w.group_output_lo
            == values@[5],
        handle.circuit.spec_tag() == TAG_JOIN ==> w.join_right_snap_lo == 0 || w.join_right_snap_lo
            == values@[4],
        judged(a, checked, Ok(values), r),
    ensures
        r.is_valid,
        r.error is None,
        r.snapshot_root == w.snapshot_root,
        r.query_hash == w.query_hash,
        r.result_commitment == a.public_inputs.result_commitment,
        r.result_commit_poseidon_lo == a.public_inputs.result_commit_lo,
        r.backend is Plonky2,
        r.proof_system is Plonky2Snark,
        r.completeness_proved <==> !(handle.circuit is Join),
        r.external_anchor_status is Unanchored,
{
    root_word(w.snapshot_root@);
    root_word(w.query_hash@);
}

/// A number of notes: one where the condition holds.
pub open spec fn one_if(c: bool) -> int {
    if c {
        1
    } else {
        0
    }
}

/// A valid artifact is warned of exactly what it does not record: one warning for
/// each commitment that belongs to its circuit and is zero, and for a join one
/// more, since matches across positions are not proved.
#[verifier::rlimit(40)]
pub proof fn missing_records_are_warned_of(
    a: ProofArtifact,
    checked: Result<(), String>,
    values: Vec<u64>,
    r: VerificationResult,
)
    requires
        judged(a, checked, Ok(values), r),
        r.is_valid,
    ensures
        ({
            let tag = checked_tag(a.verification_key_bytes@);
            let p = a.public_inputs;
            let n = r.warnings@.len();
            &&& tag == 0 ==> n == one_if(p.result_commit_lo == 0) + one_if(p.agg_n_real == 0)
            &&& tag == 1 || tag == 4 ==> n == one_if(p.result_commit_lo == 0)
                + one_if(p.sort_secondary_snap_lo == 0) + one_if(
                p.sort_secondary_snap_lo != 0 && p.sort_secondary_hi_snap_lo == 0,
            )
            &&& tag == 3 ==> n == one_if(p.join_right_snap_lo == 0) + one_if(
                p.result_commit_lo == 0,
            ) + 1
            &&& tag == 2 ==> n == one_if(p.group_output_lo == 0) + one_if(
                p.result_commit_lo == 0,
            ) + one_if(p.group_vals_snap_lo == 0)
            &&& tag > 4 ==> n == 0
        }),
{
    assert(crate::proofs::artifacts::texts(r.warnings@).len() == r.warnings@.len());
}

/// A verdict follows the proof system: where it rejects the proof, the artifact is
/// not valid, for the reason that it gives, and where the public inputs cannot be
/// read, the artifact is not valid either. A rejected artifact says nothing of
/// its snapshot, and is never called complete.
pub proof fn rejected_proofs_are_not_valid(
    a: ProofArtifact,
    checked: Result<(), String>,
    public_values: Result<Vec<u64>, String>,
    r: VerificationResult,
)
    requires
        judged(a, checked, public_values, r),
        checked is Err || public_values is Err,
    ensures
        !r.is_valid,
        r.error is Some,
        checked matches Err(e) ==> r.error->0@ == e@,
        !r.completeness_proved,
        r.warnings@.len() == 0,
        r.result_commit_poseidon_lo == 0,
        forall|i: int| 0 <= i < 32 ==> #[trigger] r.snapshot_root@[i] == 0,
        forall|i: int| 0 <= i < 32 ==> #[trigger] r.query_hash@[i] == 0,
        forall|i: int| 0 <= i < 32 ==> #[trigger] r.result_commitment@[i] == 0,
{
}

/// Tampering shows: where a valid artifact and another one record
/// different things of the same proof, the other one is not valid.
pub proof fn tampered_verdict(
    a: ProofArtifact,
    b: ProofArtifact,
    checked: Result<(), String>,
    public_values: Result<Vec<u64>, String>,
    r: VerificationResult,
    q: VerificationResult,
)
    requires
        judged(a, checked, public_values, r),
        judged(b, checked, public_values, q),
        r.is_valid,
        a.verification_key_bytes@.len() > 0,
        b.verification_key_bytes@.len() > 0,
        a.verification_key_bytes@[0] == b.verification_key_bytes@[0],
        altered(a.verification_key_bytes@[0], a.public_inputs, b.public_inputs),
    ensures
        !q.is_valid,
        q.error is Some,
{
    tampered_artifact_fails(a, b, checked, public_values);
}

/// A value that a proof carries; where it carries fewer, zero.
pub open spec fn nth(v: Seq<u64>, i: int) -> u64 {
    if i < v.len() {
        v[i]
    } else {
        0
    }
}

/// The circuit that a proof is checked against: the one that the first byte of the
/// verification key says, or the aggregation circuit where there is no key.
pub open spec fn checked_tag(key: Seq<u8>) -> u8 {
    if key.len() > 0 {
        key[0]
    } else {
        0
    }
}

/// What an artifact records is what its proof carries: the first words of snapshot
/// root and query hash, and each number and commitment of its circuit, where
/// commitments may be left out.
pub open spec fn agrees(tag: u8, v: Seq<u64>, p: PublicInputs) -> bool {
    &&& nth(v, 0) == leading_word(p.snapshot_root@)
    &&& nth(v, 1) == leading_word(p.query_hash@)
    &&& tag == 0 ==> {
        &&& nth(v, 2) == p.result_sum
        &&& nth(v, 3) == p.result_row_count
        &&& p.result_commit_lo == 0 || nth(v, 4) == p.result_commit_lo
        &&& nth(v, 5) == p.pred_op
        &&& p.pred_op == 0 || nth(v, 6) == p.pred_val
        &&& p.agg_n_real == 0 || nth(v, 7) == p.agg_n_real
    }
    &&& tag == 1 || tag == 4 ==> {
        &&& p.result_commit_lo == 0 || nth(v, 4) == p.result_commit_lo
        &&& p.sort_secondary_snap_lo == 0 || nth(v, 5) == p.sort_secondary_snap_lo
        &&& p.sort_secondary_hi_snap_lo == 0 || nth(v, 6) == p.sort_secondary_hi_snap_lo
    }
    &&& tag == 3 ==> {
        &&& p.join_right_snap_lo == 0 || nth(v, 4) == p.join_right_snap_lo
        &&& p.result_commit_lo == 0 || nth(v, 5) == p.result_commit_lo
        &&& nth(v, 6) == p.join_unmatched_count
    }
    &&& tag == 2 ==> {
        &&& p.group_output_lo == 0 || nth(v, 5) == p.group_output_lo
        &&& p.result_commit_lo == 0 || nth(v, 6) == p.result_commit_lo
        &&& p.group_vals_snap_lo == 0 || nth(v, 7) == p.group_vals_snap_lo
    }
}

/// An artifact is valid exactly where the proof system accepts the proof and the
/// artifact agrees with what the proof carries.
#[verifier::rlimit(40)]
pub proof fn valid_means_agreement(
    a: ProofArtifact,
    checked: Result<(), String>,
    values: Vec<u64>,
    r: VerificationResult,
)
    requires
        judged(a, checked, Ok(values), r),
    ensures
        r.is_valid <==> checked is Ok && agrees(
            checked_tag(a.verification_key_bytes@),
            values@,
            a.public_inputs,
        ),
        r.is_valid <==> r.error is None,
{
    root_word(a.public_inputs.snapshot_root@);
    root_word(a.public_inputs.query_hash@);
}

/// What a verdict says. Of a valid artifact, it gives roots, commitments, backend
/// and kind of proof as the artifact records them, and calls it complete unless it
/// is a join. Of any other, it gives a reason and nothing of the artifact.
#[verifier::rlimit(40)]
pub proof fn verdicts_are_whole(
    a: ProofArtifact,
    checked: Result<(), String>,
    public_values: Result<Vec<u64>, String>,
    r: VerificationResult,
)
    requires
        judged(a, checked, public_values, r),
    ensures
        r.is_valid ==> {
            &&& r.error is None
            &&& r.snapshot_root == a.public_inputs.snapshot_root
            &&& r.query_hash == a.public_inputs.query_hash
            &&& r.result_commitment == a.public_inputs.result_commitment
            &&& r.result_commit_poseidon_lo == a.public_inputs.result_commit_lo
            &&& r.backend == a.backend
            &&& r.proof_system == a.proof_system
            &&& r.completeness_proved <==> checked_tag(a.verification_key_bytes@) != 3
            &&& r.external_anchor_status is Unanchored
        },
        !r.is_valid ==> {
            &&& r.error is Some
            &&& r.warnings@.len() == 0
            &&& r.result_commit_poseidon_lo == 0
            &&& r.backend is Plonky2
            &&& r.proof_system is Plonky2Snark
            &&& !r.completeness_proved
            &&& r.external_anchor_status is Unanchored
            &&& forall|i: int| 0 <= i < 32 ==> #[trigger] r.snapshot_root@[i] == 0
            &&& forall|i: int| 0 <= i < 32 ==> #[trigger] r.query_hash@[i] == 0
            &&& forall|i: int| 0 <= i < 32 ==> #[trigger] r.result_commitment@[i] == 0
        },
        public_values is Err || checked is Err ==> !r.is_valid,
        checked is Ok && public_values is Err ==> (r.error matches Some(m) && m@
            == "failed to deserialise proof for PI extraction: "@ + public_values->Err_0@),
{
}

/// Of a proof whose public inputs could not be read, the artifact records no
/// result: the number of rows is the one that the witness claims, and every number
/// and commitment that the proof would carry is zero.
pub proof fn unread_proofs_record_no_result(
    a: ProofArtifact,
    handle: Plonky2CircuitHandle,
    w: WitnessTrace,
    raw_vk: Seq<u8>,
    proof_bytes: Seq<u8>,
    at: u64,
)
    requires
        sealed(a, handle, w, raw_vk, proof_bytes, Seq::empty(), at),
    ensures
        ({
            let p = a.public_inputs;
            &&& p.result_row_count == w.result_row_count
            &&& p.result_sum == 0
            &&& p.result_commit_lo == 0
            &&& p.join_unmatched_count == 0
            &&& p.pred_op == 0
            &&& p.pred_val == 0
            &&& p.sort_secondary_snap_lo == 0
            &&& p.sort_secondary_hi_snap_lo == 0
            &&& p.group_vals_snap_lo == 0
            &&& p.agg_n_real == 0
            &&& p.group_output_lo == if handle.circuit is GroupBy {
                w.group_output_lo
            } else {
                0
            }
            &&& p.join_right_snap_lo == if handle.circuit is Join {
                w.join_right_snap_lo
            } else {
                0
            }
        }),
{
}

} // verus!
