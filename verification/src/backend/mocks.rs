//! What holds of mock proofs.

use vstd::prelude::*;
use vstd::utf8::encode_utf8;

use crate::backend::mock::mock_folded;
use crate::backend::mock::mock_judged;
use crate::backend::mock::mock_proved;
use crate::circuit::witness::WitnessTrace;
use crate::outside::blake3_digest;
use crate::proofs::artifacts::ProofArtifact;
use crate::proofs::artifacts::VerificationResult;
use crate::types::BackendTag;

verus! {

/// The artifact claims nothing: it is marked as a mock without a proof system,
/// not bound to its dataset, with no proved commitment, a key of 32 ones and
/// zeros for everything that a circuit would say.
pub open spec fn claims_nothing(a: ProofArtifact) -> bool {
    let c = a.capabilities;
    let p = a.public_inputs;
    &&& a.backend is Mock
    &&& a.proof_system is Absent
    &&& c.dataset_binding is Unbound
    &&& !c.join_completeness_proved
    &&& !c.group_output_decomposed
    &&& c.result_commitment_kind is MetadataOnly
    &&& a.verification_key_bytes@.len() == 32
    &&& forall|i: int| 0 <= i < 32 ==> #[trigger] a.verification_key_bytes@[i] == 1
    &&& p.result_sum == 0
    &&& p.result_commit_lo == 0
    &&& p.group_output_lo == 0
    &&& p.join_right_snap_lo == 0
    &&& p.join_unmatched_count == 0
    &&& p.pred_op == 0
    &&& p.pred_val == 0
    &&& p.sort_secondary_snap_lo == 0
    &&& p.sort_secondary_hi_snap_lo == 0
    &&& p.group_vals_snap_lo == 0
    &&& p.agg_n_real == 0
}

/// A mock proof is valid for the mock backend, says what its witness says, and
/// claims nothing.
pub proof fn mock_proofs_are_valid(
    tag: BackendTag,
    w: WitnessTrace,
    json: Seq<char>,
    at: u64,
    a: ProofArtifact,
    v: VerificationResult,
)
    requires
        mock_proved(tag, w, json, at, a),
        mock_judged(a, v),
    ensures
        v.is_valid,
        v.error is None,
        v.snapshot_root == w.snapshot_root,
        v.query_hash == w.query_hash,
        v.result_commitment == w.result_commitment,
        v.result_commit_poseidon_lo == 0,
        v.backend is Mock,
        v.proof_system is Absent,
        !v.completeness_proved,
        v.external_anchor_status is Unanchored,
        v.warnings@.len() == 0,
        claims_nothing(a),
        a.query_id == w.query_id,
        a.snapshot_id == w.snapshot_id,
        a.public_inputs.result_row_count == w.result_row_count,
        a.created_at_ms == at,
        a.proof_bytes@ == blake3_digest(
            encode_utf8(
                match tag {
                    BackendTag::Mock => "Mock"@,
                    BackendTag::ConstraintChecked => "ConstraintChecked"@,
                    BackendTag::Plonky2 => "Plonky2"@,
                },
            ) + blake3_digest(encode_utf8(json)),
        ),
{
}

/// Proof bytes decide: the mock backend accepts an artifact exactly if it holds
/// any, and says what is missing otherwise. What it says of the artifact is what
/// the artifact records.
pub proof fn mock_verdict_is_by_bytes(a: ProofArtifact, v: VerificationResult)
    requires
        mock_judged(a, v),
    ensures
        v.is_valid <==> a.proof_bytes@.len() > 0,
        v.is_valid <==> v.error is None,
        v.error matches Some(e) ==> e@ == "mock: empty proof bytes"@,
        v.snapshot_root == a.public_inputs.snapshot_root,
        v.query_hash == a.public_inputs.query_hash,
        v.result_commitment == a.public_inputs.result_commitment,
        v.backend == a.backend,
{
}

/// A fold is valid for the mock backend, speaks of the left snapshot and query,
/// counts the rows of both sides, and binds both proofs and both commitments, the
/// left one first. It claims nothing.
pub proof fn mock_folds_add_up(
    left: ProofArtifact,
    right: ProofArtifact,
    at: u64,
    a: ProofArtifact,
    v: VerificationResult,
)
    requires
        mock_folded(left, right, at, a),
        mock_judged(a, v),
    ensures
        v.is_valid,
        v.error is None,
        v.snapshot_root == left.public_inputs.snapshot_root,
        v.query_hash == left.public_inputs.query_hash,
        a.public_inputs.result_row_count == left.public_inputs.result_row_count
            + right.public_inputs.result_row_count,
        a.proof_bytes@ == blake3_digest(left.proof_bytes@ + right.proof_bytes@),
        a.public_inputs.result_commitment@ == blake3_digest(
            left.public_inputs.result_commitment@ + right.public_inputs.result_commitment@,
        ),
        a.query_id == left.query_id,
        a.snapshot_id == left.snapshot_id,
        a.created_at_ms == at,
        claims_nothing(a),
{
}

/// The row count of a fold does not depend on the order or the grouping of folds.
pub proof fn mock_folds_count_alike(
    a: ProofArtifact,
    b: ProofArtifact,
    c: ProofArtifact,
    ab: ProofArtifact,
    ba: ProofArtifact,
    ab_c: ProofArtifact,
    bc: ProofArtifact,
    a_bc: ProofArtifact,
    at: u64,
)
    requires
        mock_folded(a, b, at, ab),
        mock_folded(b, a, at, ba),
        mock_folded(ab, c, at, ab_c),
        mock_folded(b, c, at, bc),
        mock_folded(a, bc, at, a_bc),
    ensures
        ab.public_inputs.result_row_count == ba.public_inputs.result_row_count,
        ab_c.public_inputs.result_row_count == a_bc.public_inputs.result_row_count,
{
}

} // verus!
