//! Proof artifacts, their public inputs, and verification results.

use vstd::prelude::*;
use vstd::utf8::encode_utf8;

use crate::outside::blake3_digest;
use crate::outside::blake3_hash;
use crate::outside::hex_encode;
use crate::text::hex_text;
use crate::types::BackendTag;
use crate::types::ProofId;
use crate::types::QueryId;
use crate::types::SnapshotId;

verus! {

/// The kind of proof that an artifact holds.
#[derive(Debug, Clone, Copy, PartialEq, Eq, Structural)]
pub enum ProofSystemKind {
    Absent,
    HashChainAudit,
    Plonky2Snark,
    Halo2Snark,
}

impl ProofSystemKind {
    /// The kind is a SNARK.
    pub open spec fn is_snark(self) -> bool {
        self is Plonky2Snark || self is Halo2Snark
    }

    /// The name under which the kind is reported.
    pub open spec fn label(self) -> &'static str {
        match self {
            ProofSystemKind::Absent => "none",
            ProofSystemKind::HashChainAudit => "hash_chain_audit",
            ProofSystemKind::Plonky2Snark => "plonky2_snark",
            ProofSystemKind::Halo2Snark => "halo2_snark",
        }
    }

    /// Whether a proof hides its witness.
    pub fn is_zero_knowledge(&self) -> (r: bool)
        ensures
            r == self.is_snark(),
    {
        match self {
            ProofSystemKind::Plonky2Snark | ProofSystemKind::Halo2Snark => true,
            _ => false,
        }
    }

    /// Whether verification is cheaper than running the query.
    pub fn is_succinct(&self) -> (r: bool)
        ensures
            r == self.is_snark(),
    {
        match self {
            ProofSystemKind::Plonky2Snark | ProofSystemKind::Halo2Snark => true,
            _ => false,
        }
    }

    /// Whether a proof commits to polynomials.
    pub fn has_polynomial_commitments(&self) -> (r: bool)
        ensures
            r == self.is_snark(),
    {
        match self {
            ProofSystemKind::Plonky2Snark | ProofSystemKind::Halo2Snark => true,
            _ => false,
        }
    }

    /// Whether constraints are checked when a proof is made.
    pub fn has_real_constraints(&self) -> (r: bool)
        ensures
            r == !(self is Absent),
    {
        match self {
            ProofSystemKind::Absent => false,
            _ => true,
        }
    }

    /// The name under which the kind is reported.
    pub fn label_text(&self) -> (r: &'static str)
        ensures
            r == self.label(),
    {
        match self {
            ProofSystemKind::Absent => "none",
            ProofSystemKind::HashChainAudit => "hash_chain_audit",
            ProofSystemKind::Plonky2Snark => "plonky2_snark",
            ProofSystemKind::Halo2Snark => "halo2_snark",
        }
    }
}

/// How much of a query one proof covers.
#[derive(Debug, Clone, Copy, PartialEq, Eq, Structural)]
pub enum ProofScope {
    SingleOperator,
}

/// How a proof is bound to its dataset.
#[derive(Debug, Clone, Copy, PartialEq, Eq, Structural)]
pub enum DatasetBinding {
    Unbound,
    Full,
}

/// Where the result commitment of an artifact comes from.
#[derive(Debug, Clone, Copy, PartialEq, Eq, Structural)]
pub enum ResultCommitmentKind {
    MetadataOnly,
    PoseidonProved,
}

/// What a proof establishes.
#[derive(Debug, Clone, Copy, PartialEq, Eq, Structural)]
pub struct ProofCapabilities {
    pub proof_scope: ProofScope,
    pub dataset_binding: DatasetBinding,
    /// Whether the proof of a join shows that every real row whose aligned keys
    /// agree is selected. Matches across positions are not covered: of those,
    /// see `completeness_proved` of the verification result.
    pub join_completeness_proved: bool,
    pub group_output_decomposed: bool,
    pub result_commitment_kind: ResultCommitmentKind,
}

/// The public inputs that an artifact records. Fields that do not belong to
/// the artifact's circuit are zero.
#[derive(Debug, Clone, Copy)]
pub struct PublicInputs {
    pub snapshot_root: [u8; 32],
    pub query_hash: [u8; 32],
    pub result_commitment: [u8; 32],
    pub result_row_count: u64,
    pub result_sum: u64,
    pub result_commit_lo: u64,
    pub group_output_lo: u64,
    pub join_right_snap_lo: u64,
    pub join_unmatched_count: u64,
    pub pred_op: u64,
    pub pred_val: u64,
    pub sort_secondary_snap_lo: u64,
    pub sort_secondary_hi_snap_lo: u64,
    pub group_vals_snap_lo: u64,
    pub agg_n_real: u64,
}

impl PublicInputs {
    /// The hash under which a query is committed to: the BLAKE3 digest of its
    /// text.
    pub fn compute_query_hash(text: &str) -> (r: [u8; 32])
        ensures
            r@ == blake3_digest(encode_utf8(text@)),
    {
        blake3_hash(text.as_bytes())
    }
}

/// A proof with what it is about.
#[derive(Debug)]
pub struct ProofArtifact {
    pub proof_id: ProofId,
    pub query_id: QueryId,
    pub snapshot_id: SnapshotId,
    pub backend: BackendTag,
    pub proof_system: ProofSystemKind,
    pub capabilities: ProofCapabilities,
    pub proof_bytes: Vec<u8>,
    pub public_inputs: PublicInputs,
    pub verification_key_bytes: Vec<u8>,
    pub created_at_ms: u64,
}

impl ProofArtifact {
    /// The proof in hexadecimal.
    pub fn hex_proof(&self) -> (r: String)
        ensures
            r@ == hex_text(self.proof_bytes@),
    {
        hex_encode(self.proof_bytes.as_slice())
    }
}

/// Whether a proof's snapshot was held against an anchor from outside.
#[derive(Debug, Clone, Copy, PartialEq, Eq, Structural)]
pub enum ExternalAnchorStatus {
    Unanchored,
    Anchored,
    Mismatch { expected_snap_lo: u64, proof_snap_lo: u64 },
    EncodingMismatch,
}

/// What verification says of an artifact.
#[derive(Debug)]
pub struct VerificationResult {
    pub is_valid: bool,
    pub snapshot_root: [u8; 32],
    pub query_hash: [u8; 32],
    pub result_commitment: [u8; 32],
    pub result_commit_poseidon_lo: u64,
    pub backend: BackendTag,
    pub proof_system: ProofSystemKind,
    pub completeness_proved: bool,
    pub external_anchor_status: ExternalAnchorStatus,
    pub warnings: Vec<String>,
    pub error: Option<String>,
}

/// The texts of a list of strings.
pub open spec fn texts(v: Seq<String>) -> Seq<Seq<char>> {
    Seq::new(v.len(), |i: int| v[i]@)
}

impl VerificationResult {
    /// The artifact was rejected for the given reason.
    pub open spec fn rejects(self, reason: Seq<char>) -> bool {
        &&& !self.is_valid
        &&& self.error matches Some(e) && e@ == reason
        &&& self.warnings@.len() == 0
        &&& !self.completeness_proved
        &&& self.external_anchor_status == ExternalAnchorStatus::Unanchored
        &&& self.result_commit_poseidon_lo == 0
        &&& self.snapshot_root@ == Seq::new(32, |i: int| 0u8)
        &&& self.query_hash@ == Seq::new(32, |i: int| 0u8)
        &&& self.result_commitment@ == Seq::new(32, |i: int| 0u8)
    }

    /// The artifact was accepted with the given warnings.
    pub open spec fn accepts(self, a: ProofArtifact, warnings: Seq<Seq<char>>) -> bool {
        &&& self.is_valid
        &&& self.error is None
        &&& texts(self.warnings@) == warnings
        &&& self.snapshot_root == a.public_inputs.snapshot_root
        &&& self.query_hash == a.public_inputs.query_hash
        &&& self.result_commitment == a.public_inputs.result_commitment
        &&& self.result_commit_poseidon_lo == a.public_inputs.result_commit_lo
        &&& self.backend == a.backend
        &&& self.proof_system == a.proof_system
    }

    /// Rejects an artifact.
    pub fn invalid_with_backend(
        error: String,
        backend: BackendTag,
        proof_system: ProofSystemKind,
    ) -> (r: VerificationResult)
        ensures
            r.rejects(error@),
            r.backend == backend,
            r.proof_system == proof_system,
    {
        let zero: [u8; 32] = [0u8; 32];
        assert(zero@ =~= Seq::new(32, |i: int| 0u8));
        VerificationResult {
            is_valid: false,
            snapshot_root: zero,
            query_hash: zero,
            result_commitment: zero,
            result_commit_poseidon_lo: 0,
            backend,
            proof_system,
            completeness_proved: false,
            external_anchor_status: ExternalAnchorStatus::Unanchored,
            warnings: Vec::new(),
            error: Some(error),
        }
    }

    /// Accepts an artifact.
    pub fn valid_with_warnings(
        artifact: &ProofArtifact,
        warnings: Vec<String>,
        completeness_proved: bool,
        external_anchor_status: ExternalAnchorStatus,
    ) -> (r: VerificationResult)
        ensures
            r.accepts(*artifact, texts(warnings@)),
            r.warnings@ == warnings@,
            r.completeness_proved == completeness_proved,
            r.external_anchor_status == external_anchor_status,
    {
        VerificationResult {
            is_valid: true,
            snapshot_root: artifact.public_inputs.snapshot_root,
            query_hash: artifact.public_inputs.query_hash,
            result_commitment: artifact.public_inputs.result_commitment,
            result_commit_poseidon_lo: artifact.public_inputs.result_commit_lo,
            backend: artifact.backend,
            proof_system: artifact.proof_system,
            completeness_proved,
            external_anchor_status,
            warnings,
            error: None,
        }
    }
}

} // verus!
