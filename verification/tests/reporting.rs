use zkdb_plonky2::api::dto::ProofResponse;
use zkdb_plonky2::api::dto::VerificationResponse;
use zkdb_plonky2::api::dto::VerifyRequest;
use zkdb_plonky2::backend::mock::MockBackend;
use zkdb_plonky2::circuit::witness::WitnessTrace;
use zkdb_plonky2::proofs::artifacts::DatasetBinding;
use zkdb_plonky2::proofs::artifacts::ExternalAnchorStatus;
use zkdb_plonky2::proofs::artifacts::ProofArtifact;
use zkdb_plonky2::proofs::artifacts::ProofSystemKind;
use zkdb_plonky2::proofs::artifacts::PublicInputs;
use zkdb_plonky2::proofs::artifacts::VerificationResult;
use zkdb_plonky2::query::proof_plan::TaskId;
use zkdb_plonky2::text::blank;
use zkdb_plonky2::text::mentioned;
use zkdb_plonky2::types::BackendTag;
use zkdb_plonky2::types::ProofId;
use zkdb_plonky2::types::QueryId;
use zkdb_plonky2::types::SnapshotId;

fn witness() -> WitnessTrace {
    let mut w = WitnessTrace::new(QueryId(0x0102), SnapshotId(0xFF));
    w.snapshot_root = [1; 32];
    w.query_hash = [2; 32];
    w.result_commitment = [3; 32];
    w.result_row_count = 5;
    w
}

fn mock_artifact() -> ProofArtifact {
    MockBackend.prove(BackendTag::Mock, &witness(), "{}", 77).expect("prove")
}

#[test]
fn mock_proof_is_deterministic() {
    let a = mock_artifact();
    let b = mock_artifact();
    assert_eq!(a.proof_bytes, b.proof_bytes);
    let inner = *blake3::hash(b"{}").as_bytes();
    let mut input = b"Mock".to_vec();
    input.extend_from_slice(&inner);
    assert_eq!(a.proof_bytes, blake3::hash(&input).as_bytes().to_vec());
    assert_eq!(a.verification_key_bytes, vec![1u8; 32]);
    assert!(matches!(a.capabilities.dataset_binding, DatasetBinding::Unbound));
    assert!(!a.capabilities.join_completeness_proved);
    assert_eq!(a.proof_system, ProofSystemKind::Absent);
    assert_eq!(a.backend, BackendTag::Mock);
    assert_eq!(a.created_at_ms, 77);
    assert_eq!(a.public_inputs.result_row_count, 5);
    assert_ne!(a.proof_id, b.proof_id);
    let other = MockBackend.prove(BackendTag::Plonky2, &witness(), "{}", 77).expect("prove");
    assert_ne!(other.proof_bytes, a.proof_bytes);
}

#[test]
fn mock_compiles_every_plan() {
    let h = MockBackend.compile_circuit("plan").expect("compile");
    assert_eq!(h.plan_hash, *blake3::hash(b"plan").as_bytes());
    assert_eq!(h.num_public_inputs(), 3);
    assert_eq!(h.backend_tag(), BackendTag::Mock);
    assert_eq!(MockBackend.tag(), BackendTag::Mock);
}

#[test]
fn mock_rejects_an_empty_proof_only() {
    let mut a = mock_artifact();
    let v = MockBackend.verify(&a).expect("verify");
    assert!(v.is_valid);
    assert_eq!(v.snapshot_root, [1; 32]);
    assert!(!v.completeness_proved);
    a.proof_bytes = vec![];
    let v = MockBackend.verify(&a).expect("verify");
    assert!(!v.is_valid);
    assert_eq!(v.error.as_deref(), Some("mock: empty proof bytes"));
}

#[test]
fn mock_fold_combines_both_sides() {
    let left = mock_artifact();
    let mut right = mock_artifact();
    right.proof_bytes = vec![9];
    right.public_inputs.result_commitment = [4; 32];
    let f = MockBackend.fold(&left, &right, 80).expect("fold");
    let mut proofs = left.proof_bytes.clone();
    proofs.push(9);
    assert_eq!(f.proof_bytes, blake3::hash(&proofs).as_bytes().to_vec());
    let mut commitments = vec![3u8; 32];
    commitments.extend_from_slice(&[4; 32]);
    assert_eq!(f.public_inputs.result_commitment, *blake3::hash(&commitments).as_bytes());
    assert_eq!(f.public_inputs.result_row_count, 10);
    assert_eq!(f.public_inputs.snapshot_root, [1; 32]);
    assert_eq!(f.query_id, QueryId(0x0102));
}

#[test]
fn proof_response_is_in_hexadecimal() {
    let mut a = mock_artifact();
    a.public_inputs.result_commit_lo = 0x0102_0304_0506_0708;
    a.proof_bytes = vec![0, 15, 16, 255];
    a.proof_id = ProofId(0x0123_4567_89ab_cdef_0123_4567_89ab_cdef);
    let r = ProofResponse::from_artifact(&a);
    assert_eq!(r.proof_id, "01234567-89ab-cdef-0123-456789abcdef");
    assert_eq!(r.query_id, "00000000-0000-0000-0000-000000000102");
    assert_eq!(r.snapshot_id, "00000000-0000-0000-0000-0000000000ff");
    assert_eq!(r.backend, "mock");
    assert_eq!(r.proof_system_kind, "none");
    assert_eq!(r.proof_hex, "000f10ff");
    assert_eq!(r.snapshot_root_hex, "01".repeat(32));
    assert_eq!(r.query_hash_hex, "02".repeat(32));
    assert_eq!(r.unsafe_metadata_commitment_hex, "03".repeat(32));
    assert_eq!(r.result_commit_poseidon_proved_hex, "0807060504030201");
    assert_eq!(r.result_row_count, 5);
    assert_eq!(r.created_at_ms, 77);
    let s: ProofResponse = a.into();
    assert_eq!(s.proof_hex, "000f10ff");
}

#[test]
fn verification_response_says_what_was_verified() {
    let a = mock_artifact();
    for (kind, label, verified, snark) in [
        (ProofSystemKind::Absent, "none", "mock_stub_verified", false),
        (ProofSystemKind::HashChainAudit, "hash_chain_audit", "audit_artifact_verified", false),
        (ProofSystemKind::Plonky2Snark, "plonky2_snark", "proof_verified", true),
        (ProofSystemKind::Halo2Snark, "halo2_snark", "proof_verified", true),
    ] {
        let mut v = MockBackend.verify(&a).expect("verify");
        v.proof_system = kind;
        v.backend = BackendTag::ConstraintChecked;
        let r: VerificationResponse = v.into();
        assert_eq!(r.proof_system_kind, label);
        assert_eq!(r.verification_kind, verified);
        assert_eq!(r.has_zero_knowledge, snark);
        assert_eq!(r.is_succinct, snark);
        assert_eq!(r.backend, "constraint_checked");
        assert_eq!(r.external_anchor_status, "unanchored");
        assert!(r.is_valid);
        assert!(r.error.is_none());
    }
}

#[test]
fn anchor_status_is_spelled_out() {
    let a = mock_artifact();
    let text = |s: ExternalAnchorStatus| {
        let mut v = MockBackend.verify(&a).expect("verify");
        v.external_anchor_status = s;
        VerificationResponse::from_result(v).external_anchor_status
    };
    assert_eq!(text(ExternalAnchorStatus::Anchored), "anchored");
    assert_eq!(text(ExternalAnchorStatus::EncodingMismatch), "encoding_mismatch");
    assert_eq!(
        text(ExternalAnchorStatus::Mismatch { expected_snap_lo: 255, proof_snap_lo: 0xABC }),
        "mismatch"
    );
}

#[test]
fn request_must_expect_the_artifact() {
    let a = mock_artifact();
    let request = |root: &str, query: &str| VerifyRequest {
        proof_id: a.proof_id.to_string(),
        expected_snapshot_root: root.to_string(),
        expected_query_hash: query.to_string(),
    };
    let judge = |req: VerifyRequest| req.judge(&a, MockBackend.verify(&a).expect("verify"));
    assert!(judge(request(&"01".repeat(32), &"02".repeat(32))).is_valid);
    let r = judge(request(&"02".repeat(32), &"02".repeat(32)));
    assert_eq!(
        r.error.as_deref(),
        Some("snapshot_root does not match expected_snapshot_root")
    );
    assert!(!r.is_valid);
    let r = judge(request(&"01".repeat(32), ""));
    assert_eq!(r.error.as_deref(), Some("query_hash does not match expected_query_hash"));
}

#[test]
fn identifiers_are_random_uuids() {
    let a = TaskId::new();
    let b = TaskId::default();
    assert_ne!(a, b);
    let text = a.to_string();
    assert_eq!(text.len(), 36);
    assert_eq!(&text[14..15], "4");
    assert!(["8", "9", "a", "b"].contains(&&text[19..20]));
    assert_ne!(QueryId::new(), QueryId::new());
}

#[test]
fn query_hash_is_the_digest_of_the_text() {
    let h = PublicInputs::compute_query_hash("SELECT é");
    assert_eq!(h, *blake3::hash("SELECT é".as_bytes()).as_bytes());
}

#[test]
fn text_search_ignores_case() {
    assert!(mentioned("[{\"kind\":\"AVG\"}]", "\"avg\""));
    assert!(!mentioned("[{\"kind\":\"average\"}]", "\"avg\""));
    assert!(!mentioned("", "\"avg\""));
    assert!(mentioned("\"avg\"", "\"avg\""));
    assert!(blank(" \t\n\u{3000}"));
    assert!(blank(""));
    assert!(!blank(" [] "));
}

#[test]
fn rejected_result_has_no_roots() {
    let r = VerificationResult::invalid_with_backend(
        "why".to_string(),
        BackendTag::Mock,
        ProofSystemKind::Absent,
    );
    assert_eq!(r.snapshot_root, [0; 32]);
    assert!(!r.is_valid);
    assert!(r.warnings.is_empty());
    assert!(!ProofSystemKind::Absent.has_real_constraints());
    assert!(ProofSystemKind::HashChainAudit.has_real_constraints());
    assert!(!ProofSystemKind::HashChainAudit.has_polynomial_commitments());
}
