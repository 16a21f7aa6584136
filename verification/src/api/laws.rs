//! What callers are told, and when.

use vstd::prelude::*;

use crate::api::benchmarks::requested_backend;
use crate::api::benchmarks::successes;
use crate::api::benchmarks::summarized;
use crate::api::benchmarks::SuiteSummary;
use crate::api::dto::anchor_text;
use crate::api::dto::judged_for;
use crate::api::dto::verified_text;
use crate::api::dto::ProofResponse;
use crate::api::dto::VerificationResponse;
use crate::api::dto::VerifyRequest;
use crate::backend::outcomes::count_over;
use crate::commitment::laws::word_at;
use crate::commitment::laws::words_are_spelled;
use crate::encoding::le_bytes;
use crate::outside::uuid_text;
use crate::proofs::artifacts::ExternalAnchorStatus;
use crate::proofs::artifacts::ProofArtifact;
use crate::proofs::artifacts::ProofSystemKind;
use crate::proofs::artifacts::VerificationResult;
use crate::readings::hex_spells;
use crate::readings::spelling_is_unique;
use crate::readings::spells;
use crate::types::BackendTag;
use crate::types::ZkDbError;

verus! {

/// A caller is told what verification says exactly if the artifact is of the
/// snapshot and the query that the caller expects, in hexadecimal. Otherwise the
/// artifact is not valid for the caller, whatever verification says, and nothing
/// is said of its snapshot, query or result.
pub proof fn callers_get_what_they_expect(
    req: VerifyRequest,
    a: ProofArtifact,
    result: VerificationResult,
    r: VerificationResult,
)
    requires
        judged_for(req, a, result, r),
    ensures
        ({
            let root = spells(req.expected_snapshot_root@, a.public_inputs.snapshot_root@);
            let query = spells(req.expected_query_hash@, a.public_inputs.query_hash@);
            &&& root && query ==> r == result
            &&& r.is_valid <==> result.is_valid && root && query
            &&& !root ==> (r.error matches Some(e) && e@
                == "snapshot_root does not match expected_snapshot_root"@)
            &&& root && !query ==> (r.error matches Some(e) && e@
                == "query_hash does not match expected_query_hash"@)
            &&& !root || !query ==> {
                &&& r.warnings@.len() == 0
                &&& !r.completeness_proved
                &&& r.result_commit_poseidon_lo == 0
                &&& r.backend == result.backend
                &&& r.proof_system == result.proof_system
                &&& forall|i: int| 0 <= i < 32 ==> #[trigger] r.snapshot_root@[i] == 0
                &&& forall|i: int| 0 <= i < 32 ==> #[trigger] r.query_hash@[i] == 0
                &&& forall|i: int| 0 <= i < 32 ==> #[trigger] r.result_commitment@[i] == 0
            }
        }),
{
    spelling_is_unique(req.expected_snapshot_root@, a.public_inputs.snapshot_root@);
    spelling_is_unique(req.expected_query_hash@, a.public_inputs.query_hash@);
}

/// What is reported of a proof can be asked for: a request that expects the root
/// and the query hash of the response is told what verification says.
pub proof fn reported_proofs_are_expected(
    p: ProofResponse,
    a: ProofArtifact,
    req: VerifyRequest,
    result: VerificationResult,
    r: VerificationResult,
)
    requires
        p.reports(a),
        req.expected_snapshot_root@ == p.snapshot_root_hex@,
        req.expected_query_hash@ == p.query_hash_hex@,
        judged_for(req, a, result, r),
    ensures
        r == result,
{
}

/// A response spells the bytes of its artifact, names its backend and its kind of
/// proof, and gives its counts and identifiers.
pub proof fn responses_report_artifacts(p: ProofResponse, a: ProofArtifact)
    requires
        p.reports(a),
    ensures
        spells(p.proof_hex@, a.proof_bytes@),
        spells(p.snapshot_root_hex@, a.public_inputs.snapshot_root@),
        spells(p.query_hash_hex@, a.public_inputs.query_hash@),
        spells(p.unsafe_metadata_commitment_hex@, a.public_inputs.result_commitment@),
        exists|b: Seq<u8>|
            {
                &&& #[trigger] spells(p.result_commit_poseidon_proved_hex@, b)
                &&& b.len() == 8
                &&& word_at(b, 0) == a.public_inputs.result_commit_lo
            },
        p.backend@ == "mock"@ <==> a.backend is Mock,
        p.backend@ == "constraint_checked"@ <==> a.backend is ConstraintChecked,
        p.backend@ == "plonky2"@ <==> a.backend is Plonky2,
        p.proof_system_kind@ == "none"@ <==> a.proof_system is Absent,
        p.proof_system_kind@ == "hash_chain_audit"@ <==> a.proof_system is HashChainAudit,
        p.proof_system_kind@ == "plonky2_snark"@ <==> a.proof_system is Plonky2Snark,
        p.proof_system_kind@ == "halo2_snark"@ <==> a.proof_system is Halo2Snark,
        p.result_row_count == a.public_inputs.result_row_count,
        p.created_at_ms == a.created_at_ms,
        p.proof_id@ == uuid_text(a.proof_id.0),
        p.query_id@ == uuid_text(a.query_id.0),
        p.snapshot_id@ == uuid_text(a.snapshot_id.0),
{
    hex_spells(a.proof_bytes@);
    hex_spells(a.public_inputs.snapshot_root@);
    hex_spells(a.public_inputs.query_hash@);
    hex_spells(a.public_inputs.result_commitment@);
    let b = le_bytes(a.public_inputs.result_commit_lo as nat, 8);
    hex_spells(b);
    words_are_spelled(a.public_inputs.result_commit_lo);
    assert(spells(p.result_commit_poseidon_proved_hex@, b));
    backend_names(a.backend);
    kind_names(a.proof_system);
}

/// Backends are told apart by their names.
pub proof fn backend_names(b: BackendTag)
    ensures
        b.label() == "mock"@ <==> b is Mock,
        b.label() == "constraint_checked"@ <==> b is ConstraintChecked,
        b.label() == "plonky2"@ <==> b is Plonky2,
        b.variant()@ == "Mock"@ <==> b is Mock,
        b.variant()@ == "ConstraintChecked"@ <==> b is ConstraintChecked,
        b.variant()@ == "Plonky2"@ <==> b is Plonky2,
{
    reveal_strlit("mock");
    reveal_strlit("constraint_checked");
    reveal_strlit("plonky2");
    reveal_strlit("Mock");
    reveal_strlit("ConstraintChecked");
    reveal_strlit("Plonky2");
    assert("mock"@.len() == 4 && "constraint_checked"@.len() == 18 && "plonky2"@.len() == 7);
    assert("Mock"@.len() == 4 && "ConstraintChecked"@.len() == 17 && "Plonky2"@.len() == 7);
}

/// Kinds of proof are told apart by their names, and are SNARKs where the name
/// says so.
pub proof fn kind_names(k: ProofSystemKind)
    ensures
        k.label()@ == "none"@ <==> k is Absent,
        k.label()@ == "hash_chain_audit"@ <==> k is HashChainAudit,
        k.label()@ == "plonky2_snark"@ <==> k is Plonky2Snark,
        k.label()@ == "halo2_snark"@ <==> k is Halo2Snark,
        k.is_snark() <==> k.label()@ == "plonky2_snark"@ || k.label()@ == "halo2_snark"@,
{
    reveal_strlit("none");
    reveal_strlit("hash_chain_audit");
    reveal_strlit("plonky2_snark");
    reveal_strlit("halo2_snark");
    assert("none"@.len() == 4 && "hash_chain_audit"@.len() == 16 && "plonky2_snark"@.len() == 13
        && "halo2_snark"@.len() == 11);
}

/// A verification result is reported as it is. A proof counts as verified, as zero
/// knowledge and as succinct exactly where it is a SNARK; an audit artifact and a
/// mock are called what they are.
pub proof fn results_are_reported(r: VerificationResponse, v: VerificationResult)
    requires
        r.reports(v),
    ensures
        r.is_valid <==> v.is_valid,
        r.verification_kind@ == "proof_verified"@ <==> v.proof_system is Plonky2Snark
            || v.proof_system is Halo2Snark,
        r.verification_kind@ == "audit_artifact_verified"@ <==> v.proof_system is HashChainAudit,
        r.verification_kind@ == "mock_stub_verified"@ <==> v.proof_system is Absent,
        r.has_zero_knowledge <==> v.proof_system is Plonky2Snark || v.proof_system is Halo2Snark,
        r.is_succinct <==> v.proof_system is Plonky2Snark || v.proof_system is Halo2Snark,
        r.proof_system_kind@ == "none"@ <==> v.proof_system is Absent,
        r.proof_system_kind@ == "hash_chain_audit"@ <==> v.proof_system is HashChainAudit,
        r.proof_system_kind@ == "plonky2_snark"@ <==> v.proof_system is Plonky2Snark,
        r.proof_system_kind@ == "halo2_snark"@ <==> v.proof_system is Halo2Snark,
        r.backend@ == "mock"@ <==> v.backend is Mock,
        r.backend@ == "constraint_checked"@ <==> v.backend is ConstraintChecked,
        r.backend@ == "plonky2"@ <==> v.backend is Plonky2,
        r.external_anchor_status@ == "unanchored"@ <==> v.external_anchor_status is Unanchored,
        r.external_anchor_status@ == "anchored"@ <==> v.external_anchor_status is Anchored,
        r.external_anchor_status@ == "mismatch"@ <==> v.external_anchor_status is Mismatch,
        r.external_anchor_status@ == "encoding_mismatch"@
            <==> v.external_anchor_status is EncodingMismatch,
        spells(r.snapshot_root_hex@, v.snapshot_root@),
        spells(r.query_hash_hex@, v.query_hash@),
        spells(r.unsafe_metadata_commitment_hex@, v.result_commitment@),
        exists|b: Seq<u8>|
            {
                &&& #[trigger] spells(r.result_commit_poseidon_proved_hex@, b)
                &&& b.len() == 8
                &&& word_at(b, 0) == v.result_commit_poseidon_lo
            },
        r.completeness_proved <==> v.completeness_proved,
        r.warnings == v.warnings,
        r.error == v.error,
{
    hex_spells(v.snapshot_root@);
    hex_spells(v.query_hash@);
    hex_spells(v.result_commitment@);
    let b = le_bytes(v.result_commit_poseidon_lo as nat, 8);
    hex_spells(b);
    words_are_spelled(v.result_commit_poseidon_lo);
    assert(spells(r.result_commit_poseidon_proved_hex@, b));
    backend_names(v.backend);
    kind_names(v.proof_system);
    anchor_names(v.external_anchor_status);
    verified_names(v.proof_system);
}

/// Anchor statuses are told apart by their names.
pub proof fn anchor_names(s: ExternalAnchorStatus)
    ensures
        anchor_text(s) == "unanchored"@ <==> s is Unanchored,
        anchor_text(s) == "anchored"@ <==> s is Anchored,
        anchor_text(s) == "mismatch"@ <==> s is Mismatch,
        anchor_text(s) == "encoding_mismatch"@ <==> s is EncodingMismatch,
{
    reveal_strlit("unanchored");
    reveal_strlit("anchored");
    reveal_strlit("mismatch");
    reveal_strlit("encoding_mismatch");
    assert("unanchored"@.len() == 10 && "encoding_mismatch"@.len() == 17);
    assert("anchored"@[0] != "mismatch"@[0]);
    assert("anchored"@.len() == 8 && "mismatch"@.len() == 8);
}

/// What was verified is told apart by its name.
pub proof fn verified_names(k: ProofSystemKind)
    ensures
        verified_text(k) == "proof_verified"@ <==> k is Plonky2Snark || k is Halo2Snark,
        verified_text(k) == "audit_artifact_verified"@ <==> k is HashChainAudit,
        verified_text(k) == "mock_stub_verified"@ <==> k is Absent,
{
    reveal_strlit("proof_verified");
    reveal_strlit("audit_artifact_verified");
    reveal_strlit("mock_stub_verified");
    assert("proof_verified"@.len() == 14 && "audit_artifact_verified"@.len() == 23
        && "mock_stub_verified"@.len() == 18);
}

/// A benchmark runs on the backend that is named, and on the mock where none or
/// another one is named.
pub proof fn named_backend_is_run(name: Option<Seq<char>>)
    ensures
        requested_backend(name) is Plonky2 <==> name == Some("plonky2"@),
        requested_backend(name) is Plonky3 <==> name == Some("plonky3"@),
        requested_backend(name) is Halo2 <==> name == Some("halo2"@),
        requested_backend(name) is Mock <==> name != Some("plonky2"@) && name != Some("plonky3"@)
            && name != Some("halo2"@),
{
    reveal_strlit("plonky2");
    reveal_strlit("plonky3");
    reveal_strlit("halo2");
    assert("plonky2"@[6] != "plonky3"@[6]);
    assert("halo2"@.len() == 5 && "plonky2"@.len() == 7 && "plonky3"@.len() == 7);
}

/// A suite is summed up by the number of its scenarios, of those that succeeded,
/// and of those that did not.
pub proof fn suites_are_counted(results: Seq<bool>, r: SuiteSummary)
    requires
        summarized(results, r),
    ensures
        r.total_scenarios == results.len(),
        r.successful == count_over(results.len() as int, |i: int| results[i]),
        r.failed == count_over(results.len() as int, |i: int| !results[i]),
{
    successes_counted(results, results.len() as int);
}

proof fn successes_counted(results: Seq<bool>, n: int)
    requires
        0 <= n,
    ensures
        successes(results, n) == count_over(n, |i: int| results[i]),
        n - successes(results, n) == count_over(n, |i: int| !results[i]),
    decreases n,
{
    if n > 0 {
        successes_counted(results, n - 1);
    }
}

/// An error says the message that it was made with.
pub proof fn errors_say_their_message(m: String)
    ensures
        ZkDbError::QueryPlan(m).text() == m@,
        ZkDbError::Proving(m).text() == m@,
        ZkDbError::Internal(m).text() == m@,
{
}

} // verus!
