//! Requests and responses about proofs.

use vstd::prelude::*;

use crate::encoding::le_bytes;
use crate::encoding::push_le;
use crate::outside::hex_encode;
use crate::outside::uuid_text;
use crate::proofs::artifacts::ExternalAnchorStatus;
use crate::proofs::artifacts::ProofArtifact;
use crate::proofs::artifacts::ProofSystemKind;
use crate::proofs::artifacts::VerificationResult;
use crate::text::hex_text;

verus! {

/// A request to verify a stored proof against what the caller expects of it.
#[derive(Debug)]
pub struct VerifyRequest {
    pub proof_id: String,
    /// The snapshot root that the proof must bind to.
    pub expected_snapshot_root: String,
    /// The query hash that the proof must bind to.
    pub expected_query_hash: String,
}

/// Why an artifact is not the one that a request expects, if it is not.
pub open spec fn unexpected(req: VerifyRequest, a: ProofArtifact) -> Option<Seq<char>> {
    if req.expected_snapshot_root@ != hex_text(a.public_inputs.snapshot_root@) {
        Some("snapshot_root does not match expected_snapshot_root"@)
    } else if req.expected_query_hash@ != hex_text(a.public_inputs.query_hash@) {
        Some("query_hash does not match expected_query_hash"@)
    } else {
        None
    }
}

/// `r` is what a request is told of an artifact, where `result` is what
/// verification says of it.
pub open spec fn judged_for(
    req: VerifyRequest,
    a: ProofArtifact,
    result: VerificationResult,
    r: VerificationResult,
) -> bool {
    match unexpected(req, a) {
        None => r == result,
        Some(m) => {
            &&& r.rejects(m)
            &&& r.backend == result.backend
            &&& r.proof_system == result.proof_system
        },
    }
}

impl VerifyRequest {
    /// Judges an artifact by what the caller expects of it, and otherwise as the
    /// given result says. A proof of another snapshot or another query is not
    /// valid for the caller, however sound it is.
    pub fn judge(&self, artifact: &ProofArtifact, result: VerificationResult) -> (r:
        VerificationResult)
        ensures
            unexpected(*self, *artifact) is None ==> r == result,
            unexpected(*self, *artifact) matches Some(m) ==> r.rejects(m) && r.backend
                == result.backend && r.proof_system == result.proof_system,
            judged_for(*self, *artifact, result, r),
    {
        if self.expected_snapshot_root != hex_encode(&artifact.public_inputs.snapshot_root) {
            VerificationResult::invalid_with_backend(
                "snapshot_root does not match expected_snapshot_root".to_owned(),
                result.backend,
                result.proof_system,
            )
        } else if self.expected_query_hash != hex_encode(&artifact.public_inputs.query_hash) {
            VerificationResult::invalid_with_backend(
                "query_hash does not match expected_query_hash".to_owned(),
                result.backend,
                result.proof_system,
            )
        } else {
            result
        }
    }
}

/// A proof as it is reported.
#[derive(Debug)]
pub struct ProofResponse {
    pub proof_id: String,
    pub query_id: String,
    pub snapshot_id: String,
    pub backend: String,
    pub proof_system_kind: String,
    pub proof_hex: String,
    pub snapshot_root_hex: String,
    pub query_hash_hex: String,
    /// A hash for correlation only; no circuit proves it.
    pub unsafe_metadata_commitment_hex: String,
    /// The result commitment that the circuit proves.
    pub result_commit_poseidon_proved_hex: String,
    pub result_row_count: u64,
    pub created_at_ms: u64,
}

/// A commitment of one field element in hexadecimal.
fn commitment_hex(lo: u64) -> (r: String)
    ensures
        r@ == hex_text(le_bytes(lo as nat, 8)),
{
    let mut bytes: Vec<u8> = Vec::new();
    push_le(&mut bytes, lo);
    assert(bytes@ =~= le_bytes(lo as nat, 8));
    hex_encode(bytes.as_slice())
}

impl ProofResponse {
    /// The response reports the artifact.
    pub open spec fn reports(self, a: ProofArtifact) -> bool {
        let p = a.public_inputs;
        &&& self.proof_id@ == uuid_text(a.proof_id.0)
        &&& self.query_id@ == uuid_text(a.query_id.0)
        &&& self.snapshot_id@ == uuid_text(a.snapshot_id.0)
        &&& self.backend@ == a.backend.label()
        &&& self.proof_system_kind@ == a.proof_system.label()@
        &&& self.proof_hex@ == hex_text(a.proof_bytes@)
        &&& self.snapshot_root_hex@ == hex_text(p.snapshot_root@)
        &&& self.query_hash_hex@ == hex_text(p.query_hash@)
        &&& self.unsafe_metadata_commitment_hex@ == hex_text(p.result_commitment@)
        &&& self.result_commit_poseidon_proved_hex@ == hex_text(
            le_bytes(p.result_commit_lo as nat, 8),
        )
        &&& self.result_row_count == p.result_row_count
        &&& self.created_at_ms == a.created_at_ms
    }

    /// Reports an artifact.
    pub fn from_artifact(a: &ProofArtifact) -> (r: ProofResponse)
        ensures
            r.reports(*a),
    {
        ProofResponse {
            proof_id: a.proof_id.to_string(),
            query_id: a.query_id.to_string(),
            snapshot_id: a.snapshot_id.to_string(),
            backend: a.backend.to_string(),
            proof_system_kind: a.proof_system.label_text().to_owned(),
            proof_hex: a.hex_proof(),
            snapshot_root_hex: hex_encode(&a.public_inputs.snapshot_root),
            query_hash_hex: hex_encode(&a.public_inputs.query_hash),
            unsafe_metadata_commitment_hex: hex_encode(&a.public_inputs.result_commitment),
            result_commit_poseidon_proved_hex: commitment_hex(a.public_inputs.result_commit_lo),
            result_row_count: a.public_inputs.result_row_count,
            created_at_ms: a.created_at_ms,
        }
    }
}

impl From<ProofArtifact> for ProofResponse {
    fn from(a: ProofArtifact) -> (r: ProofResponse)
        ensures
            r.reports(a),
    {
        ProofResponse::from_artifact(&a)
    }
}

impl vstd::std_specs::convert::FromSpecImpl<ProofArtifact> for ProofResponse {
    open spec fn obeys_from_spec() -> bool {
        false
    }

    open spec fn from_spec(a: ProofArtifact) -> ProofResponse {
        arbitrary()
    }
}

/// A verification result as it is reported.
#[derive(Debug)]
pub struct VerificationResponse {
    pub is_valid: bool,
    /// What was verified: `proof_verified`, `audit_artifact_verified` or
    /// `mock_stub_verified`.
    pub verification_kind: String,
    pub proof_system_kind: String,
    pub has_zero_knowledge: bool,
    pub is_succinct: bool,
    pub snapshot_root_hex: String,
    pub query_hash_hex: String,
    /// A hash for correlation only; no circuit proves it.
    pub unsafe_metadata_commitment_hex: String,
    /// The result commitment that the circuit proves.
    pub result_commit_poseidon_proved_hex: String,
    pub backend: String,
    pub completeness_proved: bool,
    /// One of `unanchored`, `anchored`, `mismatch` and `encoding_mismatch`.
    pub external_anchor_status: String,
    pub warnings: Vec<String>,
    pub error: Option<String>,
}

/// How an anchor status is reported.
pub open spec fn anchor_text(s: ExternalAnchorStatus) -> Seq<char> {
    match s {
        ExternalAnchorStatus::Unanchored => "unanchored"@,
        ExternalAnchorStatus::Anchored => "anchored"@,
        ExternalAnchorStatus::Mismatch { .. } => "mismatch"@,
        ExternalAnchorStatus::EncodingMismatch => "encoding_mismatch"@,
    }
}

/// What was verified, by the kind of proof.
pub open spec fn verified_text(k: ProofSystemKind) -> Seq<char> {
    match k {
        ProofSystemKind::Plonky2Snark => "proof_verified"@,
        ProofSystemKind::Halo2Snark => "proof_verified"@,
        ProofSystemKind::HashChainAudit => "audit_artifact_verified"@,
        ProofSystemKind::Absent => "mock_stub_verified"@,
    }
}

/// Reports an anchor status.
pub fn report_anchor(s: &ExternalAnchorStatus) -> (r: String)
    ensures
        r@ == anchor_text(*s),
{
    match s {
        ExternalAnchorStatus::Unanchored => "unanchored".to_owned(),
        ExternalAnchorStatus::Anchored => "anchored".to_owned(),
        ExternalAnchorStatus::Mismatch { .. } => "mismatch".to_owned(),
        ExternalAnchorStatus::EncodingMismatch => "encoding_mismatch".to_owned(),
    }
}

impl VerificationResponse {
    /// The response reports the result.
    pub open spec fn reports(self, v: VerificationResult) -> bool {
        &&& self.is_valid == v.is_valid
        &&& self.verification_kind@ == verified_text(v.proof_system)
        &&& self.proof_system_kind@ == v.proof_system.label()@
        &&& self.has_zero_knowledge == v.proof_system.is_snark()
        &&& self.is_succinct == v.proof_system.is_snark()
        &&& self.snapshot_root_hex@ == hex_text(v.snapshot_root@)
        &&& self.query_hash_hex@ == hex_text(v.query_hash@)
        &&& self.unsafe_metadata_commitment_hex@ == hex_text(v.result_commitment@)
        &&& self.result_commit_poseidon_proved_hex@ == hex_text(
            le_bytes(v.result_commit_poseidon_lo as nat, 8),
        )
        &&& self.backend@ == v.backend.label()
        &&& self.completeness_proved == v.completeness_proved
        &&& self.external_anchor_status@ == anchor_text(v.external_anchor_status)
        &&& self.warnings == v.warnings
        &&& self.error == v.error
    }

    /// Reports a verification result.
    pub fn from_result(v: VerificationResult) -> (r: VerificationResponse)
        ensures
            r.reports(v),
    {
        let kind: &str = match v.proof_system {
            ProofSystemKind::Plonky2Snark => "proof_verified",
            ProofSystemKind::Halo2Snark => "proof_verified",
            ProofSystemKind::HashChainAudit => "audit_artifact_verified",
            ProofSystemKind::Absent => "mock_stub_verified",
        };
        VerificationResponse {
            is_valid: v.is_valid,
            verification_kind: kind.to_owned(),
            proof_system_kind: v.proof_system.label_text().to_owned(),
            has_zero_knowledge: v.proof_system.is_zero_knowledge(),
            is_succinct: v.proof_system.is_succinct(),
            snapshot_root_hex: hex_encode(&v.snapshot_root),
            query_hash_hex: hex_encode(&v.query_hash),
            unsafe_metadata_commitment_hex: hex_encode(&v.result_commitment),
            result_commit_poseidon_proved_hex: commitment_hex(v.result_commit_poseidon_lo),
            backend: v.backend.to_string(),
            completeness_proved: v.completeness_proved,
            external_anchor_status: report_anchor(&v.external_anchor_status),
            warnings: v.warnings,
            error: v.error,
        }
    }
}

impl From<VerificationResult> for VerificationResponse {
    fn from(v: VerificationResult) -> (r: VerificationResponse)
        ensures
            r.reports(v),
    {
        VerificationResponse::from_result(v)
    }
}

impl vstd::std_specs::convert::FromSpecImpl<VerificationResult> for VerificationResponse {
    open spec fn obeys_from_spec() -> bool {
        false
    }

    open spec fn from_spec(v: VerificationResult) -> VerificationResponse {
        arbitrary()
    }
}

} // verus!
