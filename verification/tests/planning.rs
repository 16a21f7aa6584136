use zkdb_plonky2::api::benchmarks::pick_backend;
use zkdb_plonky2::api::benchmarks::summarize;
use zkdb_plonky2::api::benchmarks::BackendKind;
use zkdb_plonky2::backend::plonky2::Plonky2Backend;
use zkdb_plonky2::circuit::ordering::sort_rows;
use zkdb_plonky2::circuit::witness::ColumnTrace;
use zkdb_plonky2::circuit::witness::WitnessBuilder;
use zkdb_plonky2::circuit::witness::WitnessTrace;
use zkdb_plonky2::commitment::poseidon::commitment_lo;
use zkdb_plonky2::commitment::poseidon::compute_snap_lo;
use zkdb_plonky2::commitment::root::CommitmentRoot;
use zkdb_plonky2::database::ChunkDescriptor;
use zkdb_plonky2::database::SnapshotManifest;
use zkdb_plonky2::database::StagedChunk;
use zkdb_plonky2::field::FieldElement;
use zkdb_plonky2::field::MODULUS;
use zkdb_plonky2::query::ast::AggExpr;
use zkdb_plonky2::query::ast::Expr;
use zkdb_plonky2::query::ast::JoinKind;
use zkdb_plonky2::query::ast::OrderByItem;
use zkdb_plonky2::query::ast::ProjectionItem;
use zkdb_plonky2::query::logical_plan::LogicalNode;
use zkdb_plonky2::query::logical_plan::LogicalPlan;
use zkdb_plonky2::query::physical_plan::PhysicalNode;
use zkdb_plonky2::query::physical_plan::PhysicalPlan;
use zkdb_plonky2::query::physical_plan::PhysicalPlanner;
use zkdb_plonky2::query::proof_plan::ProofOperator;
use zkdb_plonky2::query::proof_plan::ProofPlan;
use zkdb_plonky2::query::proof_plan::ProofPlanner;
use zkdb_plonky2::types::DatasetId;
use zkdb_plonky2::types::QueryId;
use zkdb_plonky2::types::SnapshotId;

/// A hash from field elements to four field elements.
fn field_hash(x: &Vec<u64>) -> [u64; 4] {
    let mut bytes: Vec<u8> = Vec::new();
    for v in x {
        bytes.extend_from_slice(&v.to_le_bytes());
    }
    let digest = *blake3::hash(&bytes).as_bytes();
    let mut out = [0u64; 4];
    for k in 0..4 {
        let mut word = [0u8; 8];
        word.copy_from_slice(&digest[8 * k..8 * k + 8]);
        out[k] = u64::from_le_bytes(word) % MODULUS;
    }
    out
}

fn expr(json: &str) -> Expr {
    Expr { json: json.to_string() }
}

fn scan() -> LogicalNode {
    LogicalNode::TableScan {
        dataset_id: DatasetId(1),
        snapshot_id: SnapshotId(2),
        columns: Some(vec!["a".to_string(), "b".to_string()]),
    }
}

fn aggregate(group_by: Vec<Expr>) -> LogicalNode {
    LogicalNode::Aggregate {
        input: Box::new(LogicalNode::Filter {
            input: Box::new(scan()),
            predicate: expr("{\"gt\":1}"),
        }),
        group_by,
        aggregates: vec![
            AggExpr { json: "{\"kind\":\"sum\"}".to_string() },
            AggExpr { json: "{\"kind\":\"count\"}".to_string() },
        ],
        having: Some(expr("true")),
    }
}

fn physical(root: LogicalNode) -> PhysicalPlan {
    let manifest = SnapshotManifest {
        chunks: vec![ChunkDescriptor { chunk_index: 4 }, ChunkDescriptor { chunk_index: 7 }],
        row_count: 99,
    };
    let logical = LogicalPlan { root, dataset_id: DatasetId(1), snapshot_id: SnapshotId(2) };
    PhysicalPlanner::plan(logical, &manifest).expect("plan")
}

fn proof_plan(root: LogicalNode) -> ProofPlan {
    ProofPlanner::plan(physical(root), CommitmentRoot::zero(), QueryId(9)).expect("plan")
}

#[test]
fn aggregate_becomes_partial_and_merge() {
    let plan = physical(aggregate(vec![expr("\"k\"")]));
    assert_eq!(plan.chunk_count, 2);
    assert_eq!(plan.estimated_row_count, 99);
    assert_eq!(plan.dataset_id, DatasetId(1));
    assert_eq!(plan.snapshot_id, SnapshotId(2));
    assert_eq!(plan.root.node_name(), "MergeAggregate");
    if let PhysicalNode::MergeAggregate { input, group_by, having, .. } = &plan.root {
        assert_eq!(group_by[0].json, "\"k\"");
        assert!(having.is_some());
        assert_eq!(input.node_name(), "PartialAggregate");
        if let PhysicalNode::PartialAggregate { input, group_by, aggregates } = &**input {
            assert_eq!(group_by[0].json, "\"k\"");
            assert_eq!(aggregates.len(), 2);
            assert_eq!(input.node_name(), "Filter");
            if let PhysicalNode::Filter { input, .. } = &**input {
                if let PhysicalNode::ChunkedScan { chunk_indices, columns, .. } = &**input {
                    assert_eq!(chunk_indices, &vec![4, 7]);
                    assert_eq!(columns.as_ref().unwrap().len(), 2);
                    return;
                }
            }
        }
    }
    panic!("unexpected shape");
}

#[test]
fn other_nodes_keep_their_kind() {
    let project = LogicalNode::Projection {
        input: Box::new(scan()),
        items: vec![ProjectionItem { json: "\"a\"".to_string() }],
    };
    let sort = LogicalNode::Sort {
        input: Box::new(project),
        keys: vec![OrderByItem { json: "{\"col\":\"a\"}".to_string() }],
    };
    let limit = LogicalNode::Limit { input: Box::new(sort), n: 3, offset: 1 };
    let join = LogicalNode::Join {
        left: Box::new(limit),
        right: Box::new(scan()),
        kind: JoinKind { json: "\"inner\"".to_string() },
        condition: None,
    };
    let plan = proof_plan(join);
    let tasks = &plan.topology.tasks;
    assert_eq!(tasks.len(), 6);
    assert!(matches!(&tasks[0].operator, ProofOperator::Scan { .. }));
    assert!(
        matches!(&tasks[1].operator, ProofOperator::Projection { items_json } if items_json == "[\"a\"]")
    );
    assert!(
        matches!(&tasks[2].operator, ProofOperator::Sort { keys_json } if keys_json == "[{\"col\":\"a\"}]")
    );
    assert!(matches!(&tasks[3].operator, ProofOperator::Limit { n: 3, offset: 1 }));
    assert!(matches!(&tasks[4].operator, ProofOperator::Scan { .. }));
    assert!(
        matches!(&tasks[5].operator, ProofOperator::HashJoin { kind_json, condition_json: None } if kind_json == "\"inner\"")
    );
    assert_eq!(tasks[5].depends_on, vec![tasks[3].task_id, tasks[4].task_id]);
    assert_eq!(tasks[3].depends_on, vec![tasks[2].task_id]);
    // Two scans of two chunks each.
    assert_eq!(plan.leaf_count, 4);
    assert!(tasks[0].is_leaf() && tasks[4].is_leaf() && !tasks[5].is_leaf());
    assert_eq!(plan.topology.root_task_id, tasks[5].task_id);
    assert_eq!(plan.query_id, QueryId(9));
}

#[test]
fn aggregate_plan_is_encoded_as_json() {
    let plan = proof_plan(aggregate(vec![]));
    let tasks = &plan.topology.tasks;
    assert_eq!(tasks.len(), 4);
    assert!(
        matches!(&tasks[1].operator, ProofOperator::Filter { predicate_json } if predicate_json == "{\"gt\":1}")
    );
    if let ProofOperator::MergeAggregate { group_by_json, aggregates_json, having_json } =
        &tasks[3].operator
    {
        assert_eq!(group_by_json, "[]");
        assert_eq!(aggregates_json, "[{\"kind\":\"sum\"},{\"kind\":\"count\"}]");
        assert_eq!(having_json.as_deref(), Some("true"));
    } else {
        panic!("expected MergeAggregate");
    }
    // Partial and merged aggregate count as one operator.
    let b = Plonky2Backend::new();
    assert!(b.compile_circuit(&plan, "").is_ok());
}

#[test]
fn tasks_come_after_what_they_depend_on() {
    let plan = proof_plan(aggregate(vec![]));
    for (i, t) in plan.topology.tasks.iter().enumerate() {
        for d in &t.depends_on {
            assert!(plan.topology.tasks[..i].iter().any(|e| e.task_id == *d));
        }
    }
}

fn chunks() -> Vec<StagedChunk> {
    let row = |k: u64, payload: u8| {
        let mut r = k.to_le_bytes().to_vec();
        r.push(payload);
        r
    };
    vec![
        StagedChunk { row_bytes: vec![row(30, 1), row(10, 2)] },
        StagedChunk { row_bytes: vec![] },
        StagedChunk { row_bytes: vec![row(20, 3)] },
    ]
}

fn words(c: &ColumnTrace) -> Vec<u64> {
    c.values.iter().map(|f| f.0).collect()
}

fn built(root: LogicalNode, descending: bool) -> (ProofPlan, WitnessTrace) {
    let mut plan = proof_plan(root);
    plan.operator_params.sort_descending = descending;
    let w = WitnessBuilder::build(QueryId(1), SnapshotId(2), &plan, &chunks(), &field_hash);
    (plan, w.expect("build"))
}

fn sort_node() -> LogicalNode {
    LogicalNode::Sort {
        input: Box::new(scan()),
        keys: vec![OrderByItem { json: "1".to_string() }],
    }
}

#[test]
fn built_sort_witness_can_be_proved() {
    for descending in [false, true] {
        let (plan, w) = built(sort_node(), descending);
        let b = Plonky2Backend::new();
        let handle = b.compile_circuit(&plan, "").expect("compile");
        assert_eq!(words(&w.input_columns[0]), vec![30, 10, 20]);
        let expected = if descending { vec![30, 20, 10] } else { vec![10, 20, 30] };
        assert_eq!(words(&w.columns[0]), expected);
        assert_eq!(w.columns[2].column_name, "__secondary_out_hi");
        assert_eq!(words(&w.input_columns[1])[1], field_hash(&vec![10, 2])[0]);
        assert_eq!(words(&w.input_columns[2])[1], field_hash(&vec![10, 2])[1]);
        assert_eq!(w.sort_descending, descending);
        let p = b.prove_witness(&handle, &w, &field_hash).expect("prove");
        assert_eq!(p.public_inputs[3], 3);
    }
}

#[test]
fn built_group_witness_can_be_proved() {
    let (plan, w) = built(aggregate(vec![expr("\"k\"")]), false);
    assert_eq!(words(&w.input_columns[0]), vec![30, 10, 20]);
    assert_eq!(words(&w.columns[0]), vec![10, 20, 30]);
    assert_eq!(w.columns[0].column_name, "__primary_out");
    let b = Plonky2Backend::new();
    let handle = b.compile_circuit(&plan, "").expect("compile");
    let p = b.prove_witness(&handle, &w, &field_hash).expect("prove");
    assert_eq!(p.public_inputs[4], 3);
}

#[test]
fn built_aggregate_witness_can_be_proved() {
    let (plan, w) = built(aggregate(vec![]), false);
    assert!(w.input_columns.is_empty());
    assert_eq!(words(&w.columns[0]), vec![30, 10, 20]);
    assert_eq!(w.columns[0].column_name, "__primary");
    assert_eq!(w.row_count(), 3);
    assert_eq!(w.result_row_count, 3);
    assert_eq!(w.selected, vec![true; 3]);
    assert_eq!(
        commitment_lo(&w.snapshot_root),
        compute_snap_lo(128, &[30, 10, 20], &field_hash)
    );
    let text = plan.query_id.to_string();
    assert_eq!(w.query_hash, *blake3::hash(text.as_bytes()).as_bytes());
    let mut bytes: Vec<u8> = Vec::new();
    for v in [30u64, 10, 20] {
        bytes.extend_from_slice(&v.to_le_bytes());
    }
    assert_eq!(w.result_commitment, *blake3::hash(&bytes).as_bytes());
    let b = Plonky2Backend::new();
    let handle = b.compile_circuit(&plan, "").expect("compile");
    let p = b.prove_witness(&handle, &w, &field_hash).expect("prove");
    assert_eq!(p.public_inputs[2], 60);
}

#[test]
fn built_join_witness_can_be_proved() {
    let join = LogicalNode::Join {
        left: Box::new(scan()),
        right: Box::new(scan()),
        kind: JoinKind { json: "\"inner\"".to_string() },
        condition: Some(expr("1")),
    };
    let (plan, w) = built(join, false);
    let b = Plonky2Backend::new();
    let handle = b.compile_circuit(&plan, "").expect("compile");
    let p = b.prove_witness(&handle, &w, &field_hash).expect("prove");
    assert_eq!(p.public_inputs[3], 3);
}

#[test]
fn empty_trace_has_no_rows() {
    let w = WitnessTrace::new(QueryId(1), SnapshotId(2));
    assert_eq!(w.row_count(), 0);
    assert_eq!(w.snapshot_root, [0u8; 32]);
    let c = ColumnTrace::new("a", vec![FieldElement(1), FieldElement(2)]);
    assert_eq!(c.len(), 2);
    assert!(!c.is_empty());
    assert_eq!(c.nulls, vec![false, false]);
    assert!(ColumnTrace::new("b", vec![]).is_empty());
}

#[test]
fn rows_sort_by_key_with_their_payload() {
    let rows = vec![(5, 1, 10), (2, 2, 20), (9, 3, 30), (2, 4, 40)];
    let up = sort_rows(rows.clone(), false);
    let keys: Vec<u64> = up.iter().map(|r| r.0).collect();
    assert_eq!(keys, vec![2, 2, 5, 9]);
    assert!(rows.iter().all(|r| up.contains(r)));
    let down = sort_rows(rows, true);
    assert_eq!(down[0], (9, 3, 30));
    assert!(sort_rows(vec![], false).is_empty());
}

#[test]
fn benchmark_backend_is_picked_by_name() {
    assert_eq!(pick_backend(&Some("plonky2".to_string())), BackendKind::Plonky2);
    assert_eq!(pick_backend(&Some("plonky3".to_string())), BackendKind::Plonky3);
    assert_eq!(pick_backend(&Some("halo2".to_string())), BackendKind::Halo2);
    assert_eq!(pick_backend(&Some("Halo2".to_string())), BackendKind::Mock);
    assert_eq!(pick_backend(&None), BackendKind::Mock);
}

#[test]
fn suite_summary_counts() {
    let s = summarize(&vec![true, false, true]);
    assert_eq!((s.total_scenarios, s.successful, s.failed), (3, 2, 1));
}

#[test]
fn a_sorted_aggregate_is_not_supported() {
    let sorted = LogicalNode::Sort {
        input: Box::new(aggregate(vec![])),
        keys: vec![OrderByItem { json: "1".to_string() }],
    };
    let plan = proof_plan(sorted);
    let b = Plonky2Backend::new();
    let e = b.compile_circuit(&plan, "").err().unwrap();
    assert!(e.message().contains("Found 2 independently-provable operators"));
}

#[test]
fn every_chunk_of_a_scan_is_a_leaf_proof() {
    let root = PhysicalNode::ChunkedScan {
        dataset_id: DatasetId(1),
        snapshot_id: SnapshotId(2),
        chunk_indices: vec![0, 1, 2],
        columns: None,
    };
    let plan = PhysicalPlan {
        root,
        dataset_id: DatasetId(1),
        snapshot_id: SnapshotId(2),
        chunk_count: 3,
        estimated_row_count: 9,
    };
    let p = ProofPlanner::plan(plan, CommitmentRoot::zero(), QueryId(9)).expect("plan");
    assert_eq!(p.leaf_count, 3);
    assert_eq!(p.topology.tasks.len(), 1);
}

#[test]
fn translated_nodes_are_appended_and_leaves_are_scans() {
    let join = LogicalNode::Join {
        left: Box::new(aggregate(vec![])),
        right: Box::new(scan()),
        kind: JoinKind { json: "\"inner\"".to_string() },
        condition: None,
    };
    let mut tasks = Vec::new();
    let first = ProofPlanner::translate_node(&physical(scan()).root, &mut tasks).expect("first");
    let root = ProofPlanner::translate_node(&physical(join).root, &mut tasks).expect("second");
    assert_eq!(tasks.len(), 7);
    assert_eq!(tasks[0].task_id, first);
    assert_eq!(tasks[6].task_id, root);
    for t in &tasks {
        assert_eq!(t.is_leaf(), matches!(&t.operator, ProofOperator::Scan { .. }));
    }
    assert_eq!(tasks[6].depends_on, vec![tasks[4].task_id, tasks[5].task_id]);
}
