use zkdb_plonky2::backend::classify::extra_keys_text;
use zkdb_plonky2::backend::classify::OpKind;
use zkdb_plonky2::backend::plonky2::Plonky2Backend;
use zkdb_plonky2::backend::plonky2::Plonky2CircuitHandle;
use zkdb_plonky2::backend::plonky2::PlonkyCircuit;
use zkdb_plonky2::circuit::witness::compute_group_output_lo_padded;
use zkdb_plonky2::circuit::witness::ColumnTrace;
use zkdb_plonky2::circuit::witness::WitnessTrace;
use zkdb_plonky2::commitment::poseidon::compute_snap_lo;
use zkdb_plonky2::commitment::root::CommitmentRoot;
use zkdb_plonky2::field::FieldElement;
use zkdb_plonky2::field::MODULUS;
use zkdb_plonky2::proofs::artifacts::ExternalAnchorStatus;
use zkdb_plonky2::proofs::artifacts::ProofArtifact;
use zkdb_plonky2::proofs::artifacts::ProofSystemKind;
use zkdb_plonky2::proofs::artifacts::VerificationResult;
use zkdb_plonky2::query::proof_plan::AggregationTopology;
use zkdb_plonky2::query::proof_plan::OperatorParams;
use zkdb_plonky2::query::proof_plan::ProofOperator;
use zkdb_plonky2::query::proof_plan::ProofPlan;
use zkdb_plonky2::query::proof_plan::ProvingTask;
use zkdb_plonky2::query::proof_plan::TaskId;
use zkdb_plonky2::types::BackendTag;
use zkdb_plonky2::types::DatasetId;
use zkdb_plonky2::types::QueryId;
use zkdb_plonky2::types::SnapshotId;
use zkdb_plonky2::types::ZkDbError;

const MAX_ROWS: usize = 128;

/// A hash from field elements to four field elements.
fn field_hash(x: &Vec<u64>) -> [u64; 4] {
    let mut bytes: Vec<u8> = Vec::new();
    for v in x {
        bytes.extend_from_slice(&v.to_le_bytes());
    }
    let digest = *blake3::hash(&bytes).as_bytes();
    let mut out = [0u64; 4];
    for k in 0..4 {
        let mut word = [0u8; 8];
        word.copy_from_slice(&digest[8 * k..8 * k + 8]);
        out[k] = u64::from_le_bytes(word) % MODULUS;
    }
    out
}

fn snap(values: &[u64]) -> u64 {
    compute_snap_lo(MAX_ROWS, values, &field_hash)
}

/// A transparent proof: the values of all wires.
fn prove(
    b: &Plonky2Backend,
    handle: &Plonky2CircuitHandle,
    witness: &WitnessTrace,
) -> Result<ProofArtifact, ZkDbError> {
    let assigned = b.prove_witness(handle, witness, &field_hash)?;
    let mut bytes: Vec<u8> = Vec::new();
    for v in &assigned.wires {
        bytes.extend_from_slice(&v.to_le_bytes());
    }
    Ok(Plonky2Backend::seal_proof(
        handle,
        witness,
        &[7u8; 4],
        bytes,
        &assigned.public_inputs,
        12345,
    ))
}

/// Checks a transparent proof, and judges the artifact.
fn verify(b: &Plonky2Backend, artifact: &ProofArtifact) -> VerificationResult {
    let circuit = PlonkyCircuit::for_tag(Plonky2Backend::artifact_tag(artifact));
    let mut wires: Vec<u64> = Vec::new();
    for chunk in artifact.proof_bytes.chunks(8) {
        let mut word = [0u8; 8];
        word[..chunk.len()].copy_from_slice(chunk);
        wires.push(u64::from_le_bytes(word));
    }
    if wires.len() < circuit.system().n_wires {
        return b.verify(artifact, Ok(()), Err("too short".to_string()));
    }
    let checked = if circuit.system().check(&wires, &field_hash) {
        Ok(())
    } else {
        Err("constraints do not hold".to_string())
    };
    let values = circuit.system().read_public_inputs(&wires);
    b.verify(artifact, checked, Ok(values))
}

fn compile(b: &Plonky2Backend, plan: &ProofPlan) -> Result<Plonky2CircuitHandle, ZkDbError> {
    b.compile_circuit(plan, "{}")
}

fn plan_of(operators: Vec<ProofOperator>) -> ProofPlan {
    let mut tasks: Vec<ProvingTask> = Vec::new();
    for operator in operators {
        let depends_on: Vec<TaskId> = tasks.iter().map(|t| t.task_id).collect();
        tasks.push(ProvingTask { task_id: TaskId::new(), operator, depends_on });
    }
    let root_task_id = tasks[tasks.len() - 1].task_id;
    ProofPlan {
        query_id: QueryId::new(),
        snapshot_id: SnapshotId::new(),
        dataset_id: DatasetId::new(),
        snapshot_root: CommitmentRoot::zero(),
        topology: AggregationTopology { tasks, root_task_id },
        leaf_count: 1,
        poseidon_snap_lo: 0,
        operator_params: OperatorParams::default(),
        schema_json: None,
    }
}

fn aggregate(group_by_json: &str, aggregates_json: &str) -> ProofOperator {
    ProofOperator::PartialAggregate {
        group_by_json: group_by_json.to_string(),
        aggregates_json: aggregates_json.to_string(),
    }
}

fn count_plan() -> ProofPlan {
    plan_of(vec![aggregate("[]", r#"[{"kind":"count","column":"*"}]"#)])
}

fn sum_plan() -> ProofPlan {
    plan_of(vec![aggregate("[]", r#"[{"kind":"sum","column":"amount"}]"#)])
}

fn avg_plan() -> ProofPlan {
    plan_of(vec![aggregate("[]", r#"[{"kind":"avg","column":"score"}]"#)])
}

fn sort_plan() -> ProofPlan {
    plan_of(vec![ProofOperator::Sort {
        keys_json: r#"[{"col":"amount","dir":"asc"}]"#.to_string(),
    }])
}

fn group_by_plan() -> ProofPlan {
    plan_of(vec![aggregate(r#"["dept"]"#, r#"[{"kind":"sum","column":"salary"}]"#)])
}

fn join_plan() -> ProofPlan {
    plan_of(vec![ProofOperator::HashJoin {
        condition_json: Some(r#"{"left":"id","right":"id"}"#.to_string()),
        kind_json: r#""inner""#.to_string(),
    }])
}

fn column(name: &str, values: &[u64]) -> ColumnTrace {
    ColumnTrace::new(name, values.iter().map(|&v| FieldElement(v)).collect())
}

fn witness_for(snap_lo: u64, query: u8, rows: usize) -> WitnessTrace {
    let mut w = WitnessTrace::new(QueryId::new(), SnapshotId::new());
    w.snapshot_root[..8].copy_from_slice(&snap_lo.to_le_bytes());
    w.query_hash = [query; 32];
    w.selected = vec![true; rows];
    w.result_row_count = rows as u64;
    w
}

fn make_witness(n: usize, name: &str, values: Vec<u64>, selected_count: usize) -> WitnessTrace {
    let mut w = witness_for(snap(&values), 2, selected_count);
    w.selected = (0..n).map(|i| i < selected_count).collect();
    w.columns = vec![column(name, &values)];
    w
}

fn sort_witness(ins: &[u64], outs: &[u64], query: u8) -> WitnessTrace {
    let mut w = witness_for(snap(ins), query, ins.len());
    w.input_columns = vec![column("amount_in", ins)];
    w.columns = vec![column("amount", outs)];
    w
}

fn make_sort_witness(n: usize) -> WitnessTrace {
    let sorted: Vec<u64> = (0..n as u64).collect();
    let unsorted: Vec<u64> = (0..n as u64).rev().collect();
    sort_witness(&unsorted, &sorted, 2)
}

fn group_witness(ins: &[u64], outs: &[u64], vals: &[u64], query: u8) -> WitnessTrace {
    let mut w = witness_for(snap(ins), query, ins.len());
    w.group_output_lo = compute_group_output_lo_padded(outs, vals, &field_hash);
    w.columns = vec![column("dept", outs), column("salary", vals)];
    w.input_columns = vec![column("dept_in", ins)];
    w
}

fn make_group_by_witness(n: usize) -> WitnessTrace {
    let sorted: Vec<u64> = (0..n as u64).collect();
    let unsorted: Vec<u64> = (0..n as u64).rev().collect();
    let vals: Vec<u64> = (0..n as u64).map(|i| i * 100).collect();
    group_witness(&unsorted, &sorted, &vals, 4)
}

fn join_witness(left: &[u64], right: &[u64], vals: &[u64], query: u8) -> WitnessTrace {
    let mut w = witness_for(snap(left), query, left.len());
    w.join_right_snap_lo = snap(right);
    w.columns = vec![
        column("left_key", left),
        column("right_key", right),
        column("left_val", vals),
    ];
    w.selected = left.iter().zip(right.iter()).map(|(l, r)| l == r).collect();
    w
}

fn make_join_witness(n: usize) -> WitnessTrace {
    let keys: Vec<u64> = (0..n as u64).collect();
    let vals: Vec<u64> = (0..n as u64).map(|i| i * 10).collect();
    join_witness(&keys, &keys, &vals, 6)
}

/// Compiles, proves and verifies.
fn roundtrip(plan: &ProofPlan, w: &WitnessTrace) -> (ProofArtifact, VerificationResult) {
    let b = Plonky2Backend::new();
    let handle = compile(&b, plan).expect("compile");
    let artifact = prove(&b, &handle, w).expect("prove");
    let result = verify(&b, &artifact);
    (artifact, result)
}

#[test]
fn plonky2_count_proves_and_verifies() {
    let w = make_witness(30, "__primary", vec![1u64; 30], 30);
    let (artifact, result) = roundtrip(&count_plan(), &w);
    assert!(artifact.proof_bytes.len() > 1000);
    assert_eq!(artifact.proof_system, ProofSystemKind::Plonky2Snark);
    assert_eq!(artifact.backend, BackendTag::Plonky2);
    assert_eq!(artifact.verification_key_bytes, vec![0, 7, 7, 7, 7]);
    assert_eq!(artifact.created_at_ms, 12345);
    assert!(result.is_valid, "error={:?}", result.error);
    assert_eq!(result.proof_system, ProofSystemKind::Plonky2Snark);
    assert!(result.completeness_proved);
    assert!(result.warnings.is_empty());
}

#[test]
fn plonky2_sum_proves_and_verifies() {
    let amounts: Vec<u64> = (1000..1050).collect();
    let w = make_witness(50, "amount", amounts, 50);
    let (artifact, result) = roundtrip(&sum_plan(), &w);
    assert!(artifact.proof_bytes.len() > 1000, "proof must be sizeable");
    assert_eq!(artifact.public_inputs.result_sum, 51225);
    assert!(result.is_valid, "SUM proof must verify; error={:?}", result.error);
}

#[test]
fn plonky2_avg_proves_and_verifies() {
    let scores: Vec<u64> = (0..100).collect();
    let w = make_witness(100, "score", scores, 50);
    let (artifact, result) = roundtrip(&avg_plan(), &w);
    assert_eq!(artifact.public_inputs.result_row_count, 100);
    assert!(result.is_valid, "AVG proof must verify; error={:?}", result.error);
}

#[test]
fn plonky2_tampered_proof_fails_verify() {
    let b = Plonky2Backend::new();
    let w = make_witness(10, "__primary", vec![1u64; 10], 10);
    let (mut artifact, _) = roundtrip(&count_plan(), &w);
    let mid = artifact.proof_bytes.len() / 2;
    for i in 0..8 {
        artifact.proof_bytes[mid + i] ^= 0xFF;
    }
    let result = verify(&b, &artifact);
    assert!(!result.is_valid, "tampered proof must be invalid");
    assert!(result.error.is_some(), "error message must be populated");
}

#[test]
fn plonky2_proof_system_label_is_snark() {
    let w = make_witness(5, "__primary", vec![1u64; 5], 5);
    let (artifact, _) = roundtrip(&count_plan(), &w);
    assert_eq!(artifact.proof_system, ProofSystemKind::Plonky2Snark);
    assert!(artifact.proof_system.is_zero_knowledge());
    assert!(artifact.proof_system.is_succinct());
    assert!(artifact.proof_system.has_polynomial_commitments());
    assert!(artifact.proof_system.has_real_constraints());
}

#[test]
fn plonky2_empty_selection_proves_and_verifies() {
    let w = make_witness(20, "__primary", vec![1u64; 20], 0);
    let (_, result) = roundtrip(&count_plan(), &w);
    assert!(result.is_valid, "error={:?}", result.error);
}

#[test]
fn plonky2_order_by_proves_and_verifies() {
    let (artifact, result) = roundtrip(&sort_plan(), &make_sort_witness(30));
    assert_eq!(artifact.proof_system, ProofSystemKind::Plonky2Snark);
    assert_eq!(artifact.backend, BackendTag::Plonky2);
    assert_eq!(artifact.public_inputs.result_sum, 0);
    assert!(result.is_valid, "ORDER BY proof must verify; error={:?}", result.error);
}

#[test]
fn plonky2_order_by_tampered_fails() {
    let b = Plonky2Backend::new();
    let (mut artifact, _) = roundtrip(&sort_plan(), &make_sort_witness(10));
    let mid = artifact.proof_bytes.len() / 2;
    for i in 0..8 {
        artifact.proof_bytes[mid + i] ^= 0xFF;
    }
    let result = verify(&b, &artifact);
    assert!(!result.is_valid, "tampered ORDER BY proof must be invalid");
    assert!(result.error.is_some(), "error message must be populated");
}

#[test]
fn plonky2_order_by_empty_proves_and_verifies() {
    let (_, result) = roundtrip(&sort_plan(), &make_sort_witness(0));
    assert!(result.is_valid, "empty ORDER BY proof must verify; error={:?}", result.error);
}

#[test]
fn plonky2_group_by_proves_and_verifies() {
    let (artifact, result) = roundtrip(&group_by_plan(), &make_group_by_witness(25));
    assert_eq!(artifact.proof_system, ProofSystemKind::Plonky2Snark);
    assert!(result.is_valid, "GROUP BY proof must verify; error={:?}", result.error);
}

#[test]
fn plonky2_join_proves_and_verifies() {
    let (artifact, result) = roundtrip(&join_plan(), &make_join_witness(20));
    assert_eq!(artifact.proof_system, ProofSystemKind::Plonky2Snark);
    assert!(result.is_valid, "JOIN proof must verify; error={:?}", result.error);
}

#[test]
fn plonky2_all_circuits_produce_snark_label() {
    for (plan, witness) in [
        (sort_plan(), make_sort_witness(5)),
        (group_by_plan(), make_group_by_witness(5)),
        (join_plan(), make_join_witness(5)),
    ] {
        let (artifact, _) = roundtrip(&plan, &witness);
        assert_eq!(artifact.proof_system, ProofSystemKind::Plonky2Snark);
        assert_ne!(artifact.proof_system, ProofSystemKind::Absent);
        assert_ne!(artifact.proof_system, ProofSystemKind::HashChainAudit);
    }
}

#[test]
fn plonky2_agg_wrong_snap_lo_fails_prove() {
    let b = Plonky2Backend::new();
    let handle = compile(&b, &count_plan()).expect("compile");
    let mut w = make_witness(10, "__primary", vec![42u64; 10], 10);
    w.snapshot_root = [0xABu8; 32];
    let e = prove(&b, &handle, &w).unwrap_err();
    assert_eq!(e.message(), "agg prove: constraints not satisfied");
}

#[test]
fn plonky2_sort_wrong_snap_lo_fails_prove() {
    let b = Plonky2Backend::new();
    let handle = compile(&b, &sort_plan()).expect("compile");
    let mut w = make_sort_witness(5);
    w.snapshot_root = [0u8; 32];
    assert!(prove(&b, &handle, &w).is_err());
    w.snapshot_root = [1u8; 32];
    let e = prove(&b, &handle, &w).unwrap_err();
    assert_eq!(e.message(), "sort prove: constraints not satisfied");
}

#[test]
fn plonky2_group_by_wrong_snap_lo_fails_prove() {
    let b = Plonky2Backend::new();
    let handle = compile(&b, &group_by_plan()).expect("compile");
    let mut w = make_group_by_witness(5);
    w.snapshot_root = [0xBBu8; 32];
    let e = prove(&b, &handle, &w).unwrap_err();
    assert_eq!(e.message(), "group_by prove: constraints not satisfied");
}

#[test]
fn plonky2_join_wrong_snap_lo_fails_prove() {
    let b = Plonky2Backend::new();
    let handle = compile(&b, &join_plan()).expect("compile");
    let mut w = make_join_witness(5);
    w.snapshot_root = [0xCCu8; 32];
    let e = prove(&b, &handle, &w).unwrap_err();
    assert_eq!(e.message(), "join prove: constraints not satisfied");
}

#[test]
fn plonky2_sort_non_permutation_fails_prove() {
    let b = Plonky2Backend::new();
    let handle = compile(&b, &sort_plan()).expect("compile");
    let w = sort_witness(&[1, 2, 3], &[1, 2, 4], 2);
    assert!(prove(&b, &handle, &w).is_err());
}

#[test]
fn plonky2_group_by_non_permutation_fails_prove() {
    let b = Plonky2Backend::new();
    let handle = compile(&b, &group_by_plan()).expect("compile");
    let w = group_witness(&[3, 1, 2], &[1, 2, 5], &[10, 20, 30], 4);
    assert!(prove(&b, &handle, &w).is_err());
}

#[test]
fn plonky2_sort_desc_proves_and_verifies() {
    let b = Plonky2Backend::new();
    let mut plan = plan_of(vec![ProofOperator::Sort {
        keys_json: r#"[{"col":"amount","dir":"desc"}]"#.to_string(),
    }]);
    plan.operator_params = OperatorParams { sort_descending: true, ..Default::default() };
    let handle = compile(&b, &plan).expect("compile failed");
    assert_eq!(handle.op_kind, OpKind::DescSort);
    let ins: Vec<u64> = (0..10).collect();
    let outs: Vec<u64> = (0..10).rev().collect();
    let mut w = sort_witness(&ins, &outs, 2);
    w.sort_descending = true;
    let artifact = prove(&b, &handle, &w).expect("DESC sort prove failed");
    let result = verify(&b, &artifact);
    assert!(result.is_valid, "DESC sort proof must verify; error={:?}", result.error);
}

#[test]
fn plonky2_group_by_per_group_commitment_is_deterministic() {
    let (a1, r1) = roundtrip(&group_by_plan(), &make_group_by_witness(20));
    let (a2, r2) = roundtrip(&group_by_plan(), &make_group_by_witness(20));
    assert_eq!(a1.public_inputs.group_output_lo, a2.public_inputs.group_output_lo);
    assert!(r1.is_valid, "proof 1 must verify");
    assert!(r2.is_valid, "proof 2 must verify");
}

#[test]
fn plonky2_wrong_qhash_fails_verify() {
    let b = Plonky2Backend::new();
    let w = make_witness(10, "__primary", vec![1u64; 10], 10);
    let (mut artifact, _) = roundtrip(&count_plan(), &w);
    artifact.public_inputs.query_hash[0] ^= 0xFF;
    artifact.public_inputs.query_hash[1] ^= 0xFF;
    let result = verify(&b, &artifact);
    assert!(!result.is_valid, "tampered qhash must fail verification");
    assert_eq!(
        result.error.unwrap(),
        "qhash_lo mismatch: proof PI[1]=0x0202020202020202 \
         != artifact query_hash[..8]=0x020202020202fdfd"
    );
}

#[test]
fn plonky2_multi_operator_plan_rejected() {
    let b = Plonky2Backend::new();
    let plan = plan_of(vec![
        ProofOperator::Sort { keys_json: "[]".to_string() },
        aggregate(r#"["dept"]"#, "[]"),
    ]);
    let e = compile(&b, &plan).err().unwrap();
    assert_eq!(
        e.message(),
        "UNSUPPORTED: multi-operator composed proof plans are not yet implemented. \
         Found 2 independently-provable operators. \
         Each query may contain at most ONE of: Sort, Aggregate, GroupBy, Join. \
         Compose multi-operator queries only through future recursive folding."
    );
}

#[test]
fn plonky2_limit_plan_rejected() {
    let b = Plonky2Backend::new();
    let mut plan = plan_of(vec![
        ProofOperator::Sort { keys_json: "[]".to_string() },
        ProofOperator::Limit { n: 10, offset: 0 },
    ]);
    plan.operator_params = OperatorParams { limit: 10, ..Default::default() };
    let e = compile(&b, &plan).err().unwrap();
    assert!(e.message().contains("UNSUPPORTED"));
    assert!(e.message().contains("LIMIT"));
}

#[test]
fn plonky2_group_by_pi5_cross_check_passes() {
    let w = make_group_by_witness(20);
    assert_ne!(w.group_output_lo, 0);
    let (artifact, result) = roundtrip(&group_by_plan(), &w);
    assert_ne!(artifact.public_inputs.group_output_lo, 0);
    assert!(result.is_valid, "error={:?}", result.error);
}

#[test]
fn plonky2_group_by_tampered_pi5_fails_verify() {
    let b = Plonky2Backend::new();
    let (mut artifact, _) = roundtrip(&group_by_plan(), &make_group_by_witness(20));
    let original = artifact.public_inputs.group_output_lo;
    artifact.public_inputs.group_output_lo = original ^ 0xDEAD_BEEF_CAFE_1234;
    let result = verify(&b, &artifact);
    assert!(!result.is_valid, "tampered group_output_lo must fail PI[5] cross-check");
    assert!(result.error.unwrap().starts_with("group_output_lo mismatch: proof PI[5]=0x"));
}

#[test]
fn plonky2_join_pi4_cross_check_passes() {
    let w = make_join_witness(20);
    assert_ne!(w.join_right_snap_lo, 0);
    let (artifact, result) = roundtrip(&join_plan(), &w);
    assert_ne!(artifact.public_inputs.join_right_snap_lo, 0);
    assert!(result.is_valid, "error={:?}", result.error);
}

#[test]
fn plonky2_join_tampered_pi4_fails_verify() {
    let b = Plonky2Backend::new();
    let (mut artifact, _) = roundtrip(&join_plan(), &make_join_witness(20));
    let original = artifact.public_inputs.join_right_snap_lo;
    artifact.public_inputs.join_right_snap_lo = original ^ 0xDEAD_BEEF_CAFE_5678;
    let result = verify(&b, &artifact);
    assert!(!result.is_valid, "tampered join_right_snap_lo must fail PI[4] cross-check");
    assert!(result.error.unwrap().starts_with("join right_snap_lo mismatch: proof PI[4]=0x"));
}

#[test]
fn plonky2_tampered_snap_lo_fails_verify_pi0() {
    let b = Plonky2Backend::new();
    let w = make_witness(10, "__primary", vec![1u64; 10], 10);
    let (mut artifact, _) = roundtrip(&count_plan(), &w);
    artifact.public_inputs.snapshot_root[0] ^= 0xFF;
    artifact.public_inputs.snapshot_root[1] ^= 0xFF;
    let result = verify(&b, &artifact);
    assert!(!result.is_valid);
    assert!(result.error.unwrap().starts_with("snap_lo mismatch: proof PI[0]=0x"));
}

#[test]
fn plonky2_join_fabricated_right_side_fails() {
    let b = Plonky2Backend::new();
    let handle = compile(&b, &join_plan()).expect("compile");
    let left: Vec<u64> = (1..=10).collect();
    let right: Vec<u64> = (100..=109).collect();
    let mut w = join_witness(&left, &right, &[1u64; 10], 6);
    w.selected = vec![true; 10];
    assert!(prove(&b, &handle, &w).is_err());
}

#[test]
fn plonky2_tampered_pi3_count_fails_verify() {
    let b = Plonky2Backend::new();
    let w = make_witness(20, "val", (1..=20).collect(), 20);
    let (mut artifact, _) = roundtrip(&count_plan(), &w);
    artifact.public_inputs.result_row_count = 99;
    let result = verify(&b, &artifact);
    assert!(!result.is_valid);
    assert_eq!(
        result.error.unwrap(),
        "count mismatch: proof PI[3]=20 != artifact result_row_count=99"
    );
}

#[test]
fn plonky2_tampered_pi4_result_commit_fails_verify() {
    let b = Plonky2Backend::new();
    let w = make_witness(15, "val", (1..=15).collect(), 15);
    let (mut artifact, _) = roundtrip(&count_plan(), &w);
    artifact.public_inputs.result_commit_lo ^= 0xDEAD_BEEF_0000_0001;
    let result = verify(&b, &artifact);
    assert!(!result.is_valid);
    assert!(result.error.unwrap().contains("result_commit_lo mismatch"));
}

#[test]
fn plonky2_multi_column_sort_rejected() {
    let b = Plonky2Backend::new();
    let plan = plan_of(vec![ProofOperator::Sort {
        keys_json: r#"[{"col":"amount","dir":"asc"},{"col":"score","dir":"desc"}]"#.to_string(),
    }]);
    let e = compile(&b, &plan).err().unwrap();
    assert_eq!(
        e.message(),
        "UNSUPPORTED: multi-column ORDER BY is not yet provable. \
         keys_json has 2 sort keys; single-column ORDER BY only. \
         Remove extra sort keys or use ConstraintCheckedBackend."
    );
}

#[test]
fn plonky2_sort_result_commit_lo_cross_check_passes() {
    let (artifact, result) = roundtrip(&sort_plan(), &make_sort_witness(10));
    assert_eq!(artifact.public_inputs.result_commit_lo, field_hash(&vec![45, 10])[0]);
    assert!(result.is_valid, "error={:?}", result.error);
}

#[test]
fn plonky2_sort_tampered_result_commit_lo_fails_verify() {
    let b = Plonky2Backend::new();
    let (mut artifact, _) = roundtrip(&sort_plan(), &make_sort_witness(8));
    artifact.public_inputs.result_commit_lo ^= 0x1234_5678_9ABC_DEF0;
    let result = verify(&b, &artifact);
    assert!(!result.is_valid);
    assert!(result.error.unwrap().starts_with("sort result_commit_lo mismatch: proof PI[4]=0x"));
}

#[test]
fn plonky2_tampered_blake3_result_commitment_not_checked_by_circuit() {
    let b = Plonky2Backend::new();
    let w = make_witness(10, "salary", vec![5000; 10], 10);
    let (mut artifact, _) = roundtrip(&sum_plan(), &w);
    artifact.public_inputs.result_commitment[0] ^= 0xFF;
    assert!(verify(&b, &artifact).is_valid);
}

#[test]
fn plonky2_snap_lo_zero_guard_explicit_message() {
    let b = Plonky2Backend::new();
    let handle = compile(&b, &count_plan()).expect("compile");
    let mut w = make_witness(5, "__primary", vec![42u64; 5], 5);
    w.snapshot_root = [0u8; 32];
    let e = prove(&b, &handle, &w).unwrap_err();
    assert!(e.message().contains("snap_lo is zero"));
    assert!(e.message().contains("degenerate"));
}

#[test]
fn plonky2_order_by_snap_lo_is_column_value_specific() {
    let a: Vec<u64> = (1..=10).collect();
    let b: Vec<u64> = (100..=109).collect();
    let (artifact_a, result_a) = roundtrip(&sort_plan(), &sort_witness(&a, &a, 0x0A));
    let (artifact_b, result_b) = roundtrip(&sort_plan(), &sort_witness(&b, &b, 0x0A));
    assert_ne!(
        artifact_a.public_inputs.snapshot_root,
        artifact_b.public_inputs.snapshot_root
    );
    assert!(result_a.is_valid, "A verify");
    assert!(result_b.is_valid, "B verify");
}

#[test]
fn plonky2_order_by_asc_and_desc_different_vk_tag() {
    let b = Plonky2Backend::new();
    let ins: Vec<u64> = (1..=8).collect();
    let (mut artifact, before) = roundtrip(&sort_plan(), &sort_witness(&ins, &ins, 0x01));
    assert!(before.is_valid, "ASC must verify before VK tamper");
    assert_eq!(artifact.verification_key_bytes[0], 0x01);
    artifact.verification_key_bytes[0] = 0x04;
    assert!(!verify(&b, &artifact).is_valid, "tampered VK tag must fail verification");
}

#[test]
fn plonky2_group_by_snap_lo_is_key_specific() {
    let a: Vec<u64> = (0..8).collect();
    let b: Vec<u64> = (1000..1008).collect();
    let vals_a: Vec<u64> = a.iter().map(|k| k * 10).collect();
    let vals_b: Vec<u64> = b.iter().map(|k| k * 10).collect();
    let (artifact_a, result_a) = roundtrip(&group_by_plan(), &group_witness(&a, &a, &vals_a, 0x0B));
    let (artifact_b, result_b) = roundtrip(&group_by_plan(), &group_witness(&b, &b, &vals_b, 0x0B));
    assert_ne!(
        artifact_a.public_inputs.snapshot_root,
        artifact_b.public_inputs.snapshot_root
    );
    assert!(result_a.is_valid, "A verify");
    assert!(result_b.is_valid, "B verify");
}

#[test]
fn plonky2_group_by_tampered_vals_caught_at_verify() {
    let b = Plonky2Backend::new();
    let keys: Vec<u64> = (0..6).collect();
    let real_vals: Vec<u64> = keys.iter().map(|k| k * 100).collect();
    let fake_vals: Vec<u64> = keys.iter().map(|k| k * 999).collect();
    let valid = group_witness(&keys, &keys, &real_vals, 0x0C);
    let real_gol = valid.group_output_lo;
    assert!(roundtrip(&group_by_plan(), &valid).1.is_valid, "valid witness must verify");
    let fake = group_witness(&keys, &keys, &fake_vals, 0x0C);
    assert_ne!(fake.group_output_lo, real_gol);
    let (mut artifact, _) = roundtrip(&group_by_plan(), &fake);
    artifact.public_inputs.group_output_lo = real_gol;
    let result = verify(&b, &artifact);
    assert!(!result.is_valid);
    assert!(result.error.is_some());
}

#[test]
fn plonky2_join_both_sides_independently_bound() {
    let left: Vec<u64> = (1..=8).collect();
    let right: Vec<u64> = (100..=107).collect();
    let vals: Vec<u64> = left.iter().map(|k| k * 10).collect();
    let (artifact, result) = roundtrip(&join_plan(), &join_witness(&left, &right, &vals, 0x0D));
    let mut lo = [0u8; 8];
    lo.copy_from_slice(&artifact.public_inputs.snapshot_root[..8]);
    assert_ne!(u64::from_le_bytes(lo), artifact.public_inputs.join_right_snap_lo);
    assert!(result.is_valid, "error={:?}", result.error);
}

#[test]
fn plonky2_join_completeness_gap_documented_in_verification() {
    let (_, result) = roundtrip(&join_plan(), &make_join_witness(10));
    assert!(result.is_valid, "valid join must verify; error={:?}", result.error);
    assert!(!result.completeness_proved);
    assert!(!result.warnings.is_empty());
    assert!(result.warnings.iter().any(|w| w.to_lowercase().contains("completeness")));
}

#[test]
fn plonky2_agg_pred_lt_full_pipeline() {
    let values: Vec<u64> = vec![10, 20, 30, 40, 50];
    let mut w = witness_for(snap(&values), 0xAA, 2);
    w.filter_op = 2;
    w.filter_val = 30;
    w.selected = vec![true, true, false, false, false];
    w.columns = vec![column("amount", &values)];
    let (artifact, result) = roundtrip(&sum_plan(), &w);
    assert_eq!(artifact.public_inputs.pred_op, 2);
    assert_eq!(artifact.public_inputs.pred_val, 30);
    assert_eq!(artifact.public_inputs.result_sum, 30);
    assert!(result.is_valid, "error={:?}", result.error);
}

#[test]
fn plonky2_agg_pred_gt_full_pipeline() {
    let values: Vec<u64> = vec![10, 20, 30, 40, 50];
    let mut w = witness_for(snap(&values), 0xBB, 2);
    w.filter_op = 3;
    w.filter_val = 30;
    w.selected = vec![false, false, false, true, true];
    w.columns = vec![column("amount", &values)];
    let (artifact, result) = roundtrip(&sum_plan(), &w);
    assert_eq!(artifact.public_inputs.pred_op, 3);
    assert_eq!(artifact.public_inputs.pred_val, 30);
    assert_eq!(artifact.public_inputs.result_sum, 90);
    assert!(result.is_valid, "error={:?}", result.error);
}

#[test]
fn plonky2_agg_pred_op_tamper_caught_at_verify() {
    let b = Plonky2Backend::new();
    let values: Vec<u64> = vec![10, 20, 30, 40, 50];
    let mut w = witness_for(snap(&values), 0xCC, 2);
    w.filter_op = 2;
    w.filter_val = 30;
    w.columns = vec![column("amount", &values)];
    let (mut artifact, honest) = roundtrip(&sum_plan(), &w);
    assert!(honest.is_valid, "honest Lt proof must verify before tamper");
    artifact.public_inputs.pred_op = 3;
    let tampered = verify(&b, &artifact);
    assert!(!tampered.is_valid);
    assert_eq!(
        tampered.error.unwrap(),
        "pred_op mismatch: proof PI[5]=2 != artifact pred_op=3"
    );
}

fn payload_witness(
    ins: &[u64],
    outs: &[u64],
    in_lo: &[u64],
    out_lo: &[u64],
    query: u8,
) -> WitnessTrace {
    let mut w = sort_witness(ins, outs, query);
    w.input_columns.push(column("__secondary_in", in_lo));
    w.columns.push(column("__secondary_out", out_lo));
    w
}

#[test]
fn plonky2_sort_secondary_snap_lo_tamper_caught_at_verify() {
    let b = Plonky2Backend::new();
    let w = payload_witness(
        &[50, 30, 10, 40, 20],
        &[10, 20, 30, 40, 50],
        &[101, 202, 303, 404, 505],
        &[303, 505, 202, 404, 101],
        0xDD,
    );
    let (mut artifact, honest) = roundtrip(&sort_plan(), &w);
    assert_ne!(artifact.public_inputs.sort_secondary_snap_lo, 0);
    assert!(honest.is_valid, "honest sort with secondary must verify");
    let original = artifact.public_inputs.sort_secondary_snap_lo;
    artifact.public_inputs.sort_secondary_snap_lo = original.wrapping_add(1);
    let tampered = verify(&b, &artifact);
    assert!(!tampered.is_valid);
    assert!(tampered.error.unwrap().contains("sort_secondary_snap_lo"));
}

#[test]
fn plonky2_sort_secondary_binding_is_payload_specific() {
    let ins = [30, 10, 20];
    let outs = [10, 20, 30];
    let a = payload_witness(&ins, &outs, &[100, 200, 300], &[200, 300, 100], 0xEE);
    let b = payload_witness(&ins, &outs, &[111, 222, 333], &[222, 333, 111], 0xEE);
    let (artifact_a, result_a) = roundtrip(&sort_plan(), &a);
    let (artifact_b, result_b) = roundtrip(&sort_plan(), &b);
    assert_ne!(
        artifact_a.public_inputs.sort_secondary_snap_lo,
        artifact_b.public_inputs.sort_secondary_snap_lo
    );
    assert!(result_a.is_valid, "sort A must verify");
    assert!(result_b.is_valid, "sort B must verify");
}

#[test]
fn plonky2_phase3_result_commit_poseidon_lo_in_verification_result() {
    let w = make_witness(10, "salary", vec![1000u64; 10], 10);
    let (artifact, result) = roundtrip(&sum_plan(), &w);
    assert_ne!(artifact.public_inputs.result_commit_lo, 0);
    assert!(result.is_valid, "error={:?}", result.error);
    assert_eq!(result.result_commit_poseidon_lo, artifact.public_inputs.result_commit_lo);
}

#[test]
fn plonky2_phase3_group_by_multi_row_groups_proves_and_verifies() {
    let w = group_witness(&[3, 1, 2, 1], &[1, 1, 2, 3], &[100, 200, 50, 75], 0xA1);
    let expected = w.group_output_lo;
    let (artifact, result) = roundtrip(&group_by_plan(), &w);
    assert_eq!(artifact.public_inputs.group_output_lo, expected);
    assert_ne!(artifact.public_inputs.group_output_lo, 0);
    assert!(result.is_valid, "error={:?}", result.error);
}

#[test]
fn plonky2_phase3_group_by_running_sums_differ_from_unique_key_case() {
    let a = group_witness(&[4, 2, 1, 3], &[1, 2, 3, 4], &[100, 100, 100, 100], 0xA2);
    let b = group_witness(&[1, 2, 1, 1], &[1, 1, 1, 2], &[100, 100, 100, 100], 0xA3);
    assert_ne!(a.group_output_lo, b.group_output_lo);
    assert!(roundtrip(&group_by_plan(), &a).1.is_valid, "unique-key GROUP BY must verify");
    assert!(roundtrip(&group_by_plan(), &b).1.is_valid, "multi-row-group GROUP BY must verify");
}

#[test]
fn plonky2_phase3_join_unmatched_count_equals_max_rows_when_no_matches() {
    let left: Vec<u64> = (1..=5).collect();
    let right: Vec<u64> = (100..=104).collect();
    let vals: Vec<u64> = left.iter().map(|k| k * 10).collect();
    let (artifact, result) = roundtrip(&join_plan(), &join_witness(&left, &right, &vals, 0xB1));
    assert_eq!(artifact.public_inputs.join_unmatched_count, MAX_ROWS as u64);
    assert!(result.is_valid, "error={:?}", result.error);
    assert!(!result.completeness_proved, "JOIN must not claim completeness_proved");
}

#[test]
fn plonky2_phase3_join_partial_matches_unmatched_count() {
    let w = join_witness(&[10, 20, 30, 40], &[10, 20, 999, 888], &[1, 2, 3, 4], 0xB2);
    let (artifact, result) = roundtrip(&join_plan(), &w);
    assert_eq!(artifact.public_inputs.join_unmatched_count, MAX_ROWS as u64 - 2);
    assert!(result.is_valid, "error={:?}", result.error);
}

#[test]
fn plonky2_phase3_join_tampered_unmatched_count_fails_verify() {
    let b = Plonky2Backend::new();
    let (mut artifact, _) = roundtrip(&join_plan(), &make_join_witness(10));
    artifact.public_inputs.join_unmatched_count += 1;
    let result = verify(&b, &artifact);
    assert!(!result.is_valid);
    assert_eq!(
        result.error.unwrap(),
        "join unmatched_count mismatch: proof PI[6]=118 != artifact join_unmatched_count=119"
    );
}

#[test]
fn plonky2_phase3_external_anchor_status_defaults_to_unanchored() {
    let w = make_witness(5, "__primary", vec![1u64; 5], 5);
    let (_, result) = roundtrip(&count_plan(), &w);
    assert!(result.is_valid, "valid proof must verify");
    assert_eq!(result.external_anchor_status, ExternalAnchorStatus::Unanchored);
}

#[test]
fn plonky2_phase3_external_anchor_status_mismatch_variant_is_distinguishable() {
    let unanchored = ExternalAnchorStatus::Unanchored;
    let anchored = ExternalAnchorStatus::Anchored;
    let mismatch = ExternalAnchorStatus::Mismatch {
        expected_snap_lo: 0xDEAD_BEEF_0000_0001,
        proof_snap_lo: 0xCAFE_BABE_0000_0002,
    };
    let encoding_mismatch = ExternalAnchorStatus::EncodingMismatch;
    assert_ne!(unanchored, anchored);
    assert_ne!(unanchored, mismatch);
    assert_ne!(anchored, mismatch);
    assert_ne!(mismatch, encoding_mismatch);
    if let ExternalAnchorStatus::Mismatch { expected_snap_lo, proof_snap_lo } = &mismatch {
        assert_eq!(*expected_snap_lo, 0xDEAD_BEEF_0000_0001);
        assert_eq!(*proof_snap_lo, 0xCAFE_BABE_0000_0002);
    } else {
        panic!("expected Mismatch variant");
    }
}

#[test]
fn plonky2_stub_prove_always_errors() {
    let b = Plonky2Backend::new_stub();
    let plan = plan_of(vec![ProofOperator::Scan { chunk_indices: vec![0], column_names: None }]);
    let handle = compile(&b, &plan).unwrap();
    let witness = WitnessTrace::new(QueryId::new(), SnapshotId::new());
    let e = prove(&b, &handle, &witness).unwrap_err();
    assert!(e.message().contains("not yet wired"));
}

#[test]
fn compiled_handle_carries_the_plan() {
    let b = Plonky2Backend::default();
    let plan = avg_plan();
    let handle = b.compile_circuit(&plan, "{\"a\":1}").expect("compile");
    assert_eq!(handle.plan_hash, *blake3::hash(b"{\"a\":1}").as_bytes());
    assert_eq!(handle.op_kind, OpKind::Avg);
    assert_eq!(handle.circuit.tag(), 0);
    assert_eq!(handle.query_id, plan.query_id);
    assert_eq!(handle.snapshot_id, plan.snapshot_id);
    assert_eq!(handle.dataset_id, plan.dataset_id);
    assert_eq!(handle.backend_tag(), BackendTag::Plonky2);
    assert_eq!(handle.num_public_inputs(), 4);
    assert_eq!(b.tag(), BackendTag::Plonky2);
}

#[test]
fn plans_are_classified_by_their_root() {
    let b = Plonky2Backend::new();
    let kind = |operators: Vec<ProofOperator>| compile(&b, &plan_of(operators)).unwrap().op_kind;
    let merge = |group_by: &str, aggregates: &str| ProofOperator::MergeAggregate {
        group_by_json: group_by.to_string(),
        aggregates_json: aggregates.to_string(),
        having_json: None,
    };
    let scan = || ProofOperator::Scan { chunk_indices: vec![], column_names: None };
    assert_eq!(kind(vec![scan()]), OpKind::Generic);
    assert_eq!(
        kind(vec![scan(), aggregate("[]", "[\"SUM\"]"), merge("[]", "[\"SUM\"]")]),
        OpKind::Sum
    );
    assert_eq!(kind(vec![merge("[]", "[\"Avg\",\"sum\"]")]), OpKind::Avg);
    assert_eq!(kind(vec![merge("[]", "[\"summary\"]")]), OpKind::Count);
    assert_eq!(kind(vec![merge(" \t", "[\"avg\"]")]), OpKind::Avg);
    assert_eq!(kind(vec![merge("[\"k\"]", "[\"avg\"]")]), OpKind::GroupBy);
    let mut plan = plan_of(vec![scan(), ProofOperator::Sort { keys_json: "[]".to_string() }]);
    plan.topology.root_task_id = plan.topology.tasks[0].task_id;
    assert_eq!(compile(&b, &plan).unwrap().op_kind, OpKind::Generic);
    plan.topology.root_task_id = TaskId::new();
    assert_eq!(compile(&b, &plan).unwrap().op_kind, OpKind::Sort);
}

#[test]
fn sort_keys_that_are_no_array_pass() {
    let b = Plonky2Backend::new();
    for keys in ["[]", "not json", "{\"a\":1}", "[1]"] {
        let plan = plan_of(vec![ProofOperator::Sort { keys_json: keys.to_string() }]);
        assert!(compile(&b, &plan).is_ok(), "{keys}");
    }
    let plan = plan_of(vec![ProofOperator::Sort { keys_json: "[1,[2,3],\"x,y\"]".to_string() }]);
    assert!(compile(&b, &plan).err().unwrap().message().contains("has 3 sort keys"));
}

#[test]
fn a_rejected_proof_keeps_its_reason() {
    let b = Plonky2Backend::new();
    let w = make_witness(3, "v", vec![1, 2, 3], 3);
    let (artifact, _) = roundtrip(&count_plan(), &w);
    let r = b.verify(&artifact, Err("bad FRI proof".to_string()), Ok(vec![]));
    assert_eq!(r.error.unwrap(), "bad FRI proof");
    assert_eq!(r.snapshot_root, [0u8; 32]);
    let r = b.verify(&artifact, Ok(()), Err("short".to_string()));
    assert_eq!(
        r.error.unwrap(),
        "failed to deserialise proof for PI extraction: short"
    );
    assert!(!r.is_valid);
}

#[test]
fn agg_mismatches_are_named() {
    let b = Plonky2Backend::new();
    let mut w = make_witness(3, "v", vec![1, 2, 3], 3);
    w.filter_op = 2;
    w.filter_val = 3;
    let error = |change: &dyn Fn(&mut ProofArtifact)| {
        let (mut a, _) = roundtrip(&sum_plan(), &w);
        change(&mut a);
        verify(&b, &a).error.unwrap()
    };
    assert_eq!(
        error(&|a| a.public_inputs.result_sum = 4),
        "sum mismatch: proof PI[2]=3 != artifact result_sum=4"
    );
    assert_eq!(
        error(&|a| a.public_inputs.result_sum = 0),
        "sum mismatch: proof PI[2]=3 != artifact result_sum=0"
    );
    assert_eq!(
        error(&|a| a.public_inputs.pred_val = 9),
        "pred_val mismatch: proof PI[6]=3 != artifact pred_val=9"
    );
    assert_eq!(
        error(&|a| a.public_inputs.agg_n_real = 7),
        "agg n_real mismatch: proof PI[7]=3 != artifact agg_n_real=7"
    );
}

#[test]
fn missing_records_are_warned_of() {
    let b = Plonky2Backend::new();
    let w = make_witness(3, "v", vec![1, 2, 3], 3);
    let (mut a, _) = roundtrip(&count_plan(), &w);
    a.public_inputs.result_commit_lo = 0;
    a.public_inputs.agg_n_real = 0;
    let r = verify(&b, &a);
    assert!(r.is_valid);
    assert_eq!(r.warnings.len(), 2);
    assert!(r.warnings[0].starts_with("agg result_commit_lo not recorded in artifact"));
    assert!(r.warnings[1].contains("(proof carries PI[7]=3); this is a legacy artifact"));

    let (mut a, _) = roundtrip(&sort_plan(), &make_sort_witness(3));
    a.public_inputs.result_commit_lo = 0;
    a.public_inputs.sort_secondary_hi_snap_lo = 0;
    let r = verify(&b, &a);
    assert_eq!(r.warnings.len(), 2);
    assert!(r.warnings[1].contains("~2⁻⁶⁴ instead of ~2⁻¹²⁸"));
    a.public_inputs.sort_secondary_snap_lo = 0;
    let r = verify(&b, &a);
    assert_eq!(r.warnings.len(), 2);
    assert!(r.warnings[1].contains("key-only mode"));

    let (mut a, _) = roundtrip(&join_plan(), &make_join_witness(3));
    a.public_inputs.result_commit_lo = 0;
    a.public_inputs.join_right_snap_lo = 0;
    let r = verify(&b, &a);
    assert_eq!(r.warnings.len(), 3);
    assert!(r.warnings[0].starts_with("join right_snap_lo not recorded"));
    assert!(r.warnings[1].starts_with("join result_commit_lo not recorded"));

    let (mut a, _) = roundtrip(&group_by_plan(), &make_group_by_witness(3));
    a.public_inputs.result_commit_lo = 0;
    a.public_inputs.group_output_lo = 0;
    a.public_inputs.group_vals_snap_lo = 0;
    let r = verify(&b, &a);
    assert!(r.is_valid);
    assert_eq!(r.warnings.len(), 3);
    assert!(r.warnings[0].starts_with("group_output_lo not recorded"));
    assert!(r.warnings[1].starts_with("groupby result_commit_lo not recorded"));
    assert!(r.warnings[2].starts_with("group_vals_snap_lo not recorded"));
}

#[test]
fn remaining_mismatches_are_rejected() {
    let b = Plonky2Backend::new();
    let (mut a, _) = roundtrip(&sort_plan(), &make_sort_witness(3));
    a.public_inputs.sort_secondary_hi_snap_lo ^= 1;
    assert!(verify(&b, &a).error.unwrap().starts_with("sort_secondary_hi_snap_lo mismatch"));
    let (mut a, _) = roundtrip(&join_plan(), &make_join_witness(3));
    a.public_inputs.result_commit_lo ^= 1;
    assert!(verify(&b, &a).error.unwrap().starts_with("join result_commit_lo mismatch"));
    let (mut a, _) = roundtrip(&group_by_plan(), &make_group_by_witness(3));
    a.public_inputs.result_commit_lo ^= 1;
    assert!(verify(&b, &a).error.unwrap().starts_with("groupby result_commit_lo mismatch"));
    let (mut a, _) = roundtrip(&group_by_plan(), &make_group_by_witness(3));
    a.public_inputs.group_vals_snap_lo ^= 1;
    let e = verify(&b, &a).error.unwrap();
    assert!(e.starts_with("group_vals_snap_lo mismatch: proof PI[7]=0x"));
    assert!(e.ends_with("The aggregation value column does not match the committed dataset."));
}

#[test]
fn query_hash_beyond_the_field_does_not_verify() {
    // The proof carries the residue of the query hash.
    let mut w = make_witness(2, "v", vec![1, 2], 2);
    w.query_hash = [0xFF; 32];
    let (_, result) = roundtrip(&count_plan(), &w);
    assert!(result.error.unwrap().starts_with("qhash_lo mismatch: proof PI[1]=0x00000000fffffffe"));
}

#[test]
fn sealed_artifact_binds_the_start_of_the_proof() {
    let w = make_witness(3, "v", vec![1, 2, 3], 3);
    let (a, _) = roundtrip(&count_plan(), &w);
    let mut input: Vec<u8> = Vec::new();
    input.extend_from_slice(&w.snapshot_root);
    input.extend_from_slice(&w.query_hash);
    input.extend_from_slice(&w.result_commitment);
    input.extend_from_slice(&a.proof_bytes[..32]);
    assert_eq!(a.public_inputs.result_commitment, *blake3::hash(&input).as_bytes());
}

#[test]
fn witness_defaults_fill_missing_columns() {
    let b = Plonky2Backend::new();
    // Without unsorted values, the sorted ones in reverse order stand for them.
    let handle = compile(&b, &sort_plan()).unwrap();
    let mut w = witness_for(snap(&[3, 2, 1]), 1, 3);
    w.columns = vec![column("out", &[1, 2, 3])];
    assert!(prove(&b, &handle, &w).is_ok());
    // Without values, a grouping counts.
    let handle = compile(&b, &group_by_plan()).unwrap();
    let p = b.prove_witness(&handle, &w, &field_hash).unwrap();
    assert_eq!(p.public_inputs[2], 3);
    // Without right keys, a join is one with itself.
    let handle = compile(&b, &join_plan()).unwrap();
    let mut w = witness_for(snap(&[4, 5]), 1, 2);
    w.selected = vec![];
    w.columns = vec![column("left", &[4, 5])];
    let p = b.prove_witness(&handle, &w, &field_hash).unwrap();
    assert_eq!(p.public_inputs[2], 2);
    assert_eq!(p.public_inputs[3], 2);
}

#[test]
fn folding_is_not_implemented() {
    let b = Plonky2Backend::new();
    let w = make_witness(2, "v", vec![1, 2], 2);
    let (a, _) = roundtrip(&count_plan(), &w);
    let e = b.fold(&a, &a).unwrap_err();
    assert_eq!(e.message(), "Plonky2 recursive fold not yet implemented");
}

#[test]
fn a_sum_recorded_as_zero_is_cross_checked() {
    let w = make_witness(10, "amount", vec![5000; 10], 10);
    let (mut a, r) = roundtrip(&sum_plan(), &w);
    assert!(r.is_valid);
    a.public_inputs.result_sum = 0;
    let r = verify(&Plonky2Backend::new(), &a);
    assert!(!r.is_valid);
    assert_eq!(
        r.error.as_deref(),
        Some("sum mismatch: proof PI[2]=50000 != artifact result_sum=0")
    );
}

#[test]
fn wrong_witnesses_are_refused() {
    let b = Plonky2Backend::new();
    let refused = |plan: &ProofPlan, w: &WitnessTrace| {
        let handle = compile(&b, plan).expect("compile");
        matches!(b.prove_witness(&handle, w, &field_hash), Err(ZkDbError::Proving(_)))
    };
    // The commitment of other rows.
    let mut w = make_sort_witness(4);
    w.snapshot_root[..8].copy_from_slice(&snap(&[3, 2, 1, 1]).to_le_bytes());
    assert!(refused(&sort_plan(), &w));
    // Sorted columns that are no permutation, or of another length.
    assert!(refused(&sort_plan(), &sort_witness(&[2, 1], &[1, 1], 2)));
    assert!(refused(&sort_plan(), &sort_witness(&[1, 2], &[1, 2, 3], 2)));
    assert!(refused(&group_by_plan(), &group_witness(&[2, 1], &[2, 2], &[1, 1], 4)));
    assert!(refused(&group_by_plan(), &group_witness(&[2, 1], &[1, 2, 3], &[1, 1, 1], 4)));
    // A selected row with different keys.
    let mut w = join_witness(&[1, 2], &[1, 3], &[5, 5], 6);
    assert!(!refused(&join_plan(), &w));
    w.selected = vec![true, true];
    assert!(refused(&join_plan(), &w));
}

#[test]
fn more_than_one_sort_key_is_refused() {
    assert_eq!(extra_keys_text(None), None);
    assert_eq!(extra_keys_text(Some(0)), None);
    assert_eq!(extra_keys_text(Some(1)), None);
    let m = extra_keys_text(Some(12)).expect("refused");
    assert!(m.starts_with("UNSUPPORTED: multi-column ORDER BY is not yet provable."));
    assert!(m.contains("keys_json has 12 sort keys; single-column ORDER BY only."));
}

#[test]
fn a_sort_proof_fails_under_the_other_direction() {
    let (mut a, r) = roundtrip(&sort_plan(), &make_sort_witness(4));
    assert!(r.is_valid);
    assert_eq!(a.verification_key_bytes[0], 1);
    a.verification_key_bytes[0] = 4;
    let r = verify(&Plonky2Backend::new(), &a);
    assert!(!r.is_valid);
    assert!(r.error.is_some());
}

#[test]
fn replaced_records_are_rejected() {
    let b = Plonky2Backend::new();
    let rejected = |plan: &ProofPlan, w: &WitnessTrace, change: &dyn Fn(&mut ProofArtifact)| {
        let (mut a, r) = roundtrip(plan, w);
        assert!(r.is_valid);
        change(&mut a);
        let r = verify(&b, &a);
        !r.is_valid && r.error.is_some()
    };
    let sort = make_sort_witness(4);
    assert!(rejected(&sort_plan(), &sort, &|a| a.public_inputs.snapshot_root[7] ^= 1));
    assert!(rejected(&sort_plan(), &sort, &|a| a.public_inputs.query_hash[0] ^= 1));
    let group = make_group_by_witness(4);
    assert!(rejected(&group_by_plan(), &group, &|a| a.public_inputs.group_vals_snap_lo ^= 2));
    let join = make_join_witness(4);
    assert!(rejected(&join_plan(), &join, &|a| a.public_inputs.join_unmatched_count += 1));
}
