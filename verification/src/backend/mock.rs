//! The mock backend: deterministic stand-ins for proofs, with no security.

use vstd::prelude::*;
use vstd::utf8::encode_utf8;

use crate::circuit::witness::WitnessTrace;
use crate::encoding::push_bytes;
use crate::outside::blake3_digest;
use crate::outside::blake3_hash;
use crate::outside::is_random_uuid;
use crate::proofs::artifacts::DatasetBinding;
use crate::proofs::artifacts::ExternalAnchorStatus;
use crate::proofs::artifacts::ProofArtifact;
use crate::proofs::artifacts::ProofCapabilities;
use crate::proofs::artifacts::ProofScope;
use crate::proofs::artifacts::ProofSystemKind;
use crate::proofs::artifacts::PublicInputs;
use crate::proofs::artifacts::ResultCommitmentKind;
use crate::proofs::artifacts::VerificationResult;
use crate::types::BackendTag;
use crate::types::ProofId;
use crate::types::QueryId;
use crate::types::SnapshotId;
use crate::types::ZkResult;

verus! {

/// A compiled plan.
#[derive(Debug, Clone, Copy)]
pub struct MockCircuitHandle {
    pub plan_hash: [u8; 32],
    pub public_input_count: usize,
}

impl MockCircuitHandle {
    /// The backend that compiled the plan.
    pub fn backend_tag(&self) -> (r: BackendTag)
        ensures
            r == BackendTag::Mock,
    {
        BackendTag::Mock
    }

    /// The number of public inputs.
    pub fn num_public_inputs(&self) -> (r: usize)
        ensures
            r == self.public_input_count,
    {
        self.public_input_count
    }
}

/// The mock backend.
#[derive(Debug, Default)]
pub struct MockBackend;

/// The mock verification key: 32 ones.
pub open spec fn mock_key() -> Seq<u8> {
    Seq::new(32, |i: int| 1u8)
}

/// Public inputs that hold nothing of a circuit.
pub open spec fn no_circuit_inputs(p: PublicInputs) -> bool {
    &&& p.result_sum == 0
    &&& p.result_commit_lo == 0
    &&& p.group_output_lo == 0
    &&& p.join_right_snap_lo == 0
    &&& p.join_unmatched_count == 0
    &&& p.pred_op == 0
    &&& p.pred_val == 0
    &&& p.sort_secondary_snap_lo == 0
    &&& p.sort_secondary_hi_snap_lo == 0
    &&& p.group_vals_snap_lo == 0
    &&& p.agg_n_real == 0
}

/// What a mock proof establishes: nothing of its dataset.
pub open spec fn mock_capabilities() -> ProofCapabilities {
    ProofCapabilities {
        proof_scope: ProofScope::SingleOperator,
        dataset_binding: DatasetBinding::Unbound,
        join_completeness_proved: false,
        group_output_decomposed: false,
        result_commitment_kind: ResultCommitmentKind::MetadataOnly,
    }
}

/// What every artifact of this backend has in common.
pub open spec fn is_mock_artifact(a: ProofArtifact) -> bool {
    &&& is_random_uuid(a.proof_id.0)
    &&& a.backend == BackendTag::Mock
    &&& a.proof_system == ProofSystemKind::Absent
    &&& a.capabilities == mock_capabilities()
    &&& a.verification_key_bytes@ == mock_key()
    &&& no_circuit_inputs(a.public_inputs)
}

/// The bytes of a mock proof: the digest of the circuit's backend and the
/// witness.
pub open spec fn mock_proof(tag: BackendTag, witness_json: Seq<char>) -> Seq<u8> {
    blake3_digest(encode_utf8(tag.variant()@) + blake3_digest(encode_utf8(witness_json)))
}

/// `a` is the mock artifact of a witness.
pub open spec fn mock_proved(
    tag: BackendTag,
    w: WitnessTrace,
    witness_json: Seq<char>,
    created_at_ms: u64,
    a: ProofArtifact,
) -> bool {
    &&& is_mock_artifact(a)
    &&& a.proof_bytes@ == mock_proof(tag, witness_json)
    &&& a.proof_bytes@.len() == 32
    &&& a.query_id == w.query_id
    &&& a.snapshot_id == w.snapshot_id
    &&& a.public_inputs.snapshot_root == w.snapshot_root
    &&& a.public_inputs.query_hash == w.query_hash
    &&& a.public_inputs.result_commitment == w.result_commitment
    &&& a.public_inputs.result_row_count == w.result_row_count
    &&& a.created_at_ms == created_at_ms
}

/// `v` is what the mock backend says of an artifact.
pub open spec fn mock_judged(a: ProofArtifact, v: VerificationResult) -> bool {
    let p = a.public_inputs;
    &&& v.is_valid == (a.proof_bytes@.len() > 0)
    &&& v.is_valid ==> v.error is None
    &&& !v.is_valid ==> (v.error matches Some(e) && e@ == "mock: empty proof bytes"@)
    &&& v.snapshot_root == p.snapshot_root
    &&& v.query_hash == p.query_hash
    &&& v.result_commitment == p.result_commitment
    &&& v.result_commit_poseidon_lo == p.result_commit_lo
    &&& v.backend == a.backend
    &&& v.proof_system == ProofSystemKind::Absent
    &&& !v.completeness_proved
    &&& v.external_anchor_status == ExternalAnchorStatus::Unanchored
    &&& v.warnings@.len() == 0
}

/// `a` is the mock fold of two artifacts.
pub open spec fn mock_folded(
    left: ProofArtifact,
    right: ProofArtifact,
    created_at_ms: u64,
    a: ProofArtifact,
) -> bool {
    let p = left.public_inputs;
    let q = right.public_inputs;
    &&& is_mock_artifact(a)
    &&& a.proof_bytes@ == blake3_digest(left.proof_bytes@ + right.proof_bytes@)
    &&& a.proof_bytes@.len() == 32
    &&& a.query_id == left.query_id
    &&& a.snapshot_id == left.snapshot_id
    &&& a.public_inputs.snapshot_root == p.snapshot_root
    &&& a.public_inputs.query_hash == p.query_hash
    &&& a.public_inputs.result_commitment@ == blake3_digest(
        p.result_commitment@ + q.result_commitment@,
    )
    &&& a.public_inputs.result_row_count == p.result_row_count + q.result_row_count
    &&& a.created_at_ms == created_at_ms
}

/// The mock verification key.
fn make_key() -> (r: Vec<u8>)
    ensures
        r@ == mock_key(),
{
    let mut r: Vec<u8> = Vec::new();
    let mut i: usize = 0;
    while i < 32
        invariant
            i <= 32,
            r@ =~= Seq::new(i as nat, |k: int| 1u8),
        decreases 32 - i,
    {
        r.push(1);
        i = i + 1;
    }
    r
}

/// Makes an artifact of a mock proof.
fn make_artifact(
    query_id: QueryId,
    snapshot_id: SnapshotId,
    proof_bytes: Vec<u8>,
    snapshot_root: [u8; 32],
    query_hash: [u8; 32],
    result_commitment: [u8; 32],
    result_row_count: u64,
    created_at_ms: u64,
) -> (r: ProofArtifact)
    ensures
        is_mock_artifact(r),
        r.query_id == query_id,
        r.snapshot_id == snapshot_id,
        r.proof_bytes@ == proof_bytes@,
        r.public_inputs.snapshot_root == snapshot_root,
        r.public_inputs.query_hash == query_hash,
        r.public_inputs.result_commitment == result_commitment,
        r.public_inputs.result_row_count == result_row_count,
        r.created_at_ms == created_at_ms,
{
    ProofArtifact {
        proof_id: ProofId::new(),
        query_id,
        snapshot_id,
        backend: BackendTag::Mock,
        proof_system: ProofSystemKind::Absent,
        capabilities: ProofCapabilities {
            proof_scope: ProofScope::SingleOperator,
            dataset_binding: DatasetBinding::Unbound,
            join_completeness_proved: false,
            group_output_decomposed: false,
            result_commitment_kind: ResultCommitmentKind::MetadataOnly,
        },
        proof_bytes,
        public_inputs: PublicInputs {
            snapshot_root,
            query_hash,
            result_commitment,
            result_row_count,
            result_sum: 0,
            result_commit_lo: 0,
            group_output_lo: 0,
            join_right_snap_lo: 0,
            join_unmatched_count: 0,
            pred_op: 0,
            pred_val: 0,
            sort_secondary_snap_lo: 0,
            sort_secondary_hi_snap_lo: 0,
            group_vals_snap_lo: 0,
            agg_n_real: 0,
        },
        verification_key_bytes: make_key(),
        created_at_ms,
    }
}

impl MockBackend {
    /// The tag of the backend.
    pub fn tag(&self) -> (r: BackendTag)
        ensures
            r == BackendTag::Mock,
    {
        BackendTag::Mock
    }

    /// Compiles a plan, of which it sees the JSON text. The public inputs are
    /// snapshot root, query hash and result commitment.
    pub fn compile_circuit(&self, plan_json: &str) -> (r: ZkResult<MockCircuitHandle>)
        ensures
            r matches Ok(h) && h.plan_hash@ == blake3_digest(encode_utf8(plan_json@))
                && h.public_input_count == 3,
    {
        Ok(
            MockCircuitHandle {
                plan_hash: blake3_hash(plan_json.as_bytes()),
                public_input_count: 3,
            },
        )
    }

    /// Makes a mock proof of a witness, whose JSON text is handed in beside it.
    pub fn prove(
        &self,
        circuit_tag: BackendTag,
        witness: &WitnessTrace,
        witness_json: &str,
        created_at_ms: u64,
    ) -> (r: ZkResult<ProofArtifact>)
        ensures
            r matches Ok(a) && {
                &&& is_mock_artifact(a)
                &&& a.proof_bytes@ == mock_proof(circuit_tag, witness_json@)
                &&& a.query_id == witness.query_id
                &&& a.snapshot_id == witness.snapshot_id
                &&& a.public_inputs.snapshot_root == witness.snapshot_root
                &&& a.public_inputs.query_hash == witness.query_hash
                &&& a.public_inputs.result_commitment == witness.result_commitment
                &&& a.public_inputs.result_row_count == witness.result_row_count
                &&& a.created_at_ms == created_at_ms
            },
            r matches Ok(a) ==> mock_proved(circuit_tag, *witness, witness_json@, created_at_ms, a),
    {
        let mut input: Vec<u8> = Vec::new();
        push_bytes(&mut input, circuit_tag.variant_name().as_bytes());
        let placeholder: Vec<u8> = witness.proof_bytes_placeholder(witness_json);
        push_bytes(&mut input, placeholder.as_slice());
        assert(input@ =~= encode_utf8(circuit_tag.variant()@) + blake3_digest(
            encode_utf8(witness_json@),
        ));
        let d: [u8; 32] = blake3_hash(input.as_slice());
        let proof_bytes: Vec<u8> = vstd::slice::slice_to_vec(&d);
        Ok(
            make_artifact(
                witness.query_id,
                witness.snapshot_id,
                proof_bytes,
                witness.snapshot_root,
                witness.query_hash,
                witness.result_commitment,
                witness.result_row_count,
                created_at_ms,
            ),
        )
    }

    /// Accepts every artifact that holds any proof bytes.
    pub fn verify(&self, artifact: &ProofArtifact) -> (r: ZkResult<VerificationResult>)
        ensures
            r matches Ok(v) && {
                let p = artifact.public_inputs;
                &&& v.is_valid == (artifact.proof_bytes@.len() > 0)
                &&& v.is_valid ==> v.error is None
                &&& !v.is_valid ==> (v.error matches Some(e) && e@ == "mock: empty proof bytes"@)
                &&& v.snapshot_root == p.snapshot_root
                &&& v.query_hash == p.query_hash
                &&& v.result_commitment == p.result_commitment
                &&& v.result_commit_poseidon_lo == p.result_commit_lo
                &&& v.backend == artifact.backend
                &&& v.proof_system == ProofSystemKind::Absent
                &&& !v.completeness_proved
                &&& v.external_anchor_status == ExternalAnchorStatus::Unanchored
                &&& v.warnings@.len() == 0
            },
            r matches Ok(v) ==> mock_judged(*artifact, v),
    {
        let is_valid: bool = artifact.proof_bytes.len() > 0;
        Ok(
            VerificationResult {
                is_valid,
                snapshot_root: artifact.public_inputs.snapshot_root,
                query_hash: artifact.public_inputs.query_hash,
                result_commitment: artifact.public_inputs.result_commitment,
                result_commit_poseidon_lo: artifact.public_inputs.result_commit_lo,
                backend: artifact.backend,
                proof_system: ProofSystemKind::Absent,
                completeness_proved: false,
                external_anchor_status: ExternalAnchorStatus::Unanchored,
                warnings: Vec::new(),
                error: if is_valid {
                    None
                } else {
                    Some("mock: empty proof bytes".to_owned())
                },
            },
        )
    }

    /// Folds two artifacts: the digest of both proofs, the snapshot and query of
    /// the left one, the digest of both result commitments, and the sum of both
    /// row counts.
    pub fn fold(
        &self,
        left: &ProofArtifact,
        right: &ProofArtifact,
        created_at_ms: u64,
    ) -> (r: ZkResult<ProofArtifact>)
        requires
            left.public_inputs.result_row_count + right.public_inputs.result_row_count <= u64::MAX,
        ensures
            r matches Ok(a) && {
                let p = left.public_inputs;
                let q = right.public_inputs;
                &&& is_mock_artifact(a)
                &&& a.proof_bytes@ == blake3_digest(left.proof_bytes@ + right.proof_bytes@)
                &&& a.query_id == left.query_id
                &&& a.snapshot_id == left.snapshot_id
                &&& a.public_inputs.snapshot_root == p.snapshot_root
                &&& a.public_inputs.query_hash == p.query_hash
                &&& a.public_inputs.result_commitment@ == blake3_digest(
                    p.result_commitment@ + q.result_commitment@,
                )
                &&& a.public_inputs.result_row_count == p.result_row_count + q.result_row_count
                &&& a.created_at_ms == created_at_ms
            },
            r matches Ok(a) ==> mock_folded(*left, *right, created_at_ms, a),
    {
        let mut proofs: Vec<u8> = Vec::new();
        push_bytes(&mut proofs, left.proof_bytes.as_slice());
        push_bytes(&mut proofs, right.proof_bytes.as_slice());
        assert(proofs@ =~= left.proof_bytes@ + right.proof_bytes@);
        let d: [u8; 32] = blake3_hash(proofs.as_slice());
        let folded_bytes: Vec<u8> = vstd::slice::slice_to_vec(&d);
        let mut commitments: Vec<u8> = Vec::new();
        push_bytes(&mut commitments, &left.public_inputs.result_commitment);
        push_bytes(&mut commitments, &right.public_inputs.result_commitment);
        assert(commitments@ =~= left.public_inputs.result_commitment@
            + right.public_inputs.result_commitment@);
        let combined: [u8; 32] = blake3_hash(commitments.as_slice());
        Ok(
            make_artifact(
                left.query_id,
                left.snapshot_id,
                folded_bytes,
                left.public_inputs.snapshot_root,
                left.public_inputs.query_hash,
                combined,
                left.public_inputs.result_row_count + right.public_inputs.result_row_count,
                created_at_ms,
            ),
        )
    }
}

} // verus!
