//! Proof plans: a physical plan as a list of proving tasks, each with the tasks
//! that it depends on.

use vstd::prelude::*;

use crate::commitment::root::CommitmentRoot;
use crate::outside::is_random_uuid;
use crate::outside::new_uuid;
use crate::outside::uuid_text;
use crate::outside::uuid_to_string;
use crate::proofs::artifacts::texts;
use crate::query::ast::agg_texts;
use crate::query::ast::aggregates_json;
use crate::query::ast::expr_texts;
use crate::query::ast::exprs_json;
use crate::query::ast::item_texts;
use crate::query::ast::items_json;
use crate::query::ast::json_array;
use crate::query::ast::key_texts;
use crate::query::ast::keys_json;
use crate::query::ast::Expr;
use crate::query::physical_plan::PhysicalNode;
use crate::query::physical_plan::PhysicalPlan;
use crate::text::blank;
use crate::text::is_blank;
use crate::types::DatasetId;
use crate::types::QueryId;
use crate::types::SnapshotId;
use crate::types::ZkResult;

verus! {

/// Identifies a proving task.
#[derive(Debug, Clone, Copy, PartialEq, Eq, Hash, Structural)]
pub struct TaskId(pub u128);

impl TaskId {
    /// A random identifier.
    pub fn new() -> (r: TaskId)
        ensures
            is_random_uuid(r.0),
    {
        TaskId(new_uuid())
    }

    /// The identifier as text.
    pub fn to_string(&self) -> (r: String)
        ensures
            r@ == uuid_text(self.0),
    {
        uuid_to_string(self.0)
    }
}

impl Default for TaskId {
    fn default() -> (r: TaskId)
        ensures
            is_random_uuid(r.0),
    {
        TaskId::new()
    }
}

/// The operator that a task proves.
#[derive(Debug)]
pub enum ProofOperator {
    Scan { chunk_indices: Vec<u32>, column_names: Option<Vec<String>> },
    Filter { predicate_json: String },
    Projection { items_json: String },
    PartialAggregate { group_by_json: String, aggregates_json: String },
    MergeAggregate {
        group_by_json: String,
        aggregates_json: String,
        having_json: Option<String>,
    },
    Sort { keys_json: String },
    Limit { n: u64, offset: u64 },
    HashJoin { condition_json: Option<String>, kind_json: String },
    /// Verifies two inner proofs and combines their commitments.
    RecursiveFold { left_task: TaskId, right_task: TaskId },
}

/// A unit of proving work.
#[derive(Debug)]
pub struct ProvingTask {
    pub task_id: TaskId,
    pub operator: ProofOperator,
    /// The tasks whose proofs go into this one; none for a leaf.
    pub depends_on: Vec<TaskId>,
}

impl ProvingTask {
    /// The task depends on no other.
    pub open spec fn leaf(self) -> bool {
        self.depends_on@.len() == 0
    }

    /// Tests whether the task depends on no other.
    pub fn is_leaf(&self) -> (r: bool)
        ensures
            r == self.leaf(),
    {
        self.depends_on.is_empty()
    }
}

/// How the proofs of tasks are put together.
#[derive(Debug)]
pub struct AggregationTopology {
    /// The tasks in order: leaves first, the root last.
    pub tasks: Vec<ProvingTask>,
    /// The task of the root proof.
    pub root_task_id: TaskId,
}

/// The first task at or after `i` with the given identifier, or the number of
/// tasks where there is none.
pub open spec fn first_with(tasks: Seq<ProvingTask>, id: TaskId, i: int) -> int
    decreases tasks.len() - i,
{
    if i >= tasks.len() {
        tasks.len() as int
    } else if tasks[i].task_id == id {
        i
    } else {
        first_with(tasks, id, i + 1)
    }
}

/// The root task: the first one with the given identifier, or else the last.
pub open spec fn root_index(tasks: Seq<ProvingTask>, id: TaskId) -> int {
    let k = first_with(tasks, id, 0);
    if k < tasks.len() {
        k
    } else {
        tasks.len() - 1
    }
}

impl AggregationTopology {
    /// The operator of the root task, where there is any task.
    pub fn root_operator(&self) -> (r: Option<&ProofOperator>)
        ensures
            self.tasks@.len() == 0 <==> r is None,
            r matches Some(op) ==> *op == self.tasks@[root_index(
                self.tasks@,
                self.root_task_id,
            )].operator,
    {
        let n: usize = self.tasks.len();
        if n == 0 {
            return None;
        }
        let mut i: usize = 0;
        while i < n
            invariant
                i <= n,
                n == self.tasks@.len(),
                first_with(self.tasks@, self.root_task_id, 0) == first_with(
                    self.tasks@,
                    self.root_task_id,
                    i as int,
                ),
            decreases n - i,
        {
            if self.tasks[i].task_id == self.root_task_id {
                return Some(&self.tasks[i].operator);
            }
            i = i + 1;
        }
        Some(&self.tasks[n - 1].operator)
    }
}

/// A grouping is by some key: the list of keys is not empty.
pub open spec fn has_keys(group_by_json: Seq<char>) -> bool {
    group_by_json != "[]"@ && !is_blank(group_by_json)
}

/// Tests whether a grouping is by some key.
pub fn groups_by_keys(group_by_json: &String) -> (r: bool)
    ensures
        r == has_keys(group_by_json@),
{
    *group_by_json != "[]".to_owned() && !blank(group_by_json.as_str())
}

/// Parameters of the root operator that are settled for the whole plan.
#[derive(Debug, Clone, Copy, PartialEq, Eq, Structural)]
pub struct OperatorParams {
    pub sort_descending: bool,
    /// The largest number of rows to return; zero for no limit.
    pub limit: u64,
}

impl Default for OperatorParams {
    fn default() -> (r: OperatorParams)
        ensures
            !r.sort_descending,
            r.limit == 0,
    {
        OperatorParams { sort_descending: false, limit: 0 }
    }
}

/// The complete plan for proving a query.
#[derive(Debug)]
pub struct ProofPlan {
    pub query_id: QueryId,
    pub snapshot_id: SnapshotId,
    pub dataset_id: DatasetId,
    /// The snapshot root that is a public input of every proof.
    pub snapshot_root: CommitmentRoot,
    pub topology: AggregationTopology,
    /// The number of leaf proofs: one for each chunk of each scan.
    pub leaf_count: u32,
    /// The `snap_lo` of the snapshot, where it is known; otherwise zero.
    pub poseidon_snap_lo: u64,
    pub operator_params: OperatorParams,
    pub schema_json: Option<String>,
}

/// The texts of an optional list of names.
pub open spec fn names(v: Option<Vec<String>>) -> Option<Seq<Seq<char>>> {
    match v {
        Some(s) => Some(texts(s@)),
        None => None,
    }
}

/// The JSON text of an optional expression.
pub open spec fn optional_json(e: Option<Expr>) -> Option<Seq<char>> {
    match e {
        Some(x) => Some(x.json@),
        None => None,
    }
}

/// The text of an optional string.
pub open spec fn optional_text(s: Option<String>) -> Option<Seq<char>> {
    match s {
        Some(x) => Some(x@),
        None => None,
    }
}

/// `op` is the operator that proves `node`: what the node carries is encoded as
/// JSON.
pub open spec fn encodes(node: PhysicalNode, op: ProofOperator) -> bool {
    match node {
        PhysicalNode::ChunkedScan { chunk_indices, columns, .. } => op matches ProofOperator::Scan {
            chunk_indices: ci,
            column_names,
        } && ci@ == chunk_indices@ && names(column_names) == names(columns),
        PhysicalNode::Filter { predicate, .. } => op matches ProofOperator::Filter {
            predicate_json,
        } && predicate_json@ == predicate.json@,
        PhysicalNode::Projection { items, .. } => op matches ProofOperator::Projection {
            items_json: t,
        } && t@ == json_array(item_texts(items@)),
        PhysicalNode::PartialAggregate {
            group_by,
            aggregates,
            ..
        } => op matches ProofOperator::PartialAggregate { group_by_json, aggregates_json: a }
            && group_by_json@ == json_array(expr_texts(group_by@)) && a@ == json_array(
            agg_texts(aggregates@),
        ),
        PhysicalNode::MergeAggregate {
            group_by,
            aggregates,
            having,
            ..
        } => op matches ProofOperator::MergeAggregate {
            group_by_json,
            aggregates_json: a,
            having_json,
        } && group_by_json@ == json_array(expr_texts(group_by@)) && a@ == json_array(
            agg_texts(aggregates@),
        ) && optional_text(having_json) == optional_json(having),
        PhysicalNode::Sort { keys, .. } => op matches ProofOperator::Sort { keys_json: k } && k@
            == json_array(key_texts(keys@)),
        PhysicalNode::Limit { n, offset, .. } => op matches ProofOperator::Limit {
            n: m,
            offset: o,
        } && m == n && o == offset,
        PhysicalNode::HashJoin { kind, condition, .. } => op matches ProofOperator::HashJoin {
            condition_json,
            kind_json,
        } && kind_json@ == kind.json@ && optional_text(condition_json) == optional_json(condition),
    }
}

/// The number of nodes of a physical plan.
pub open spec fn node_count(node: PhysicalNode) -> nat
    decreases node,
{
    match node {
        PhysicalNode::ChunkedScan { .. } => 1,
        PhysicalNode::Filter { input, .. } => node_count(*input) + 1,
        PhysicalNode::Projection { input, .. } => node_count(*input) + 1,
        PhysicalNode::PartialAggregate { input, .. } => node_count(*input) + 1,
        PhysicalNode::MergeAggregate { input, .. } => node_count(*input) + 1,
        PhysicalNode::Sort { input, .. } => node_count(*input) + 1,
        PhysicalNode::Limit { input, .. } => node_count(*input) + 1,
        PhysicalNode::HashJoin { left, right, .. } => node_count(*left) + node_count(*right) + 1,
    }
}

/// The number of scans of a physical plan.
pub open spec fn scan_count(node: PhysicalNode) -> nat
    decreases node,
{
    match node {
        PhysicalNode::ChunkedScan { .. } => 1,
        PhysicalNode::Filter { input, .. } => scan_count(*input),
        PhysicalNode::Projection { input, .. } => scan_count(*input),
        PhysicalNode::PartialAggregate { input, .. } => scan_count(*input),
        PhysicalNode::MergeAggregate { input, .. } => scan_count(*input),
        PhysicalNode::Sort { input, .. } => scan_count(*input),
        PhysicalNode::Limit { input, .. } => scan_count(*input),
        PhysicalNode::HashJoin { left, right, .. } => scan_count(*left) + scan_count(*right),
    }
}

/// The number of chunks over all scans of a physical plan.
pub open spec fn chunk_total(node: PhysicalNode) -> nat
    decreases node,
{
    match node {
        PhysicalNode::ChunkedScan { chunk_indices, .. } => chunk_indices@.len(),
        PhysicalNode::Filter { input, .. } => chunk_total(*input),
        PhysicalNode::Projection { input, .. } => chunk_total(*input),
        PhysicalNode::PartialAggregate { input, .. } => chunk_total(*input),
        PhysicalNode::MergeAggregate { input, .. } => chunk_total(*input),
        PhysicalNode::Sort { input, .. } => chunk_total(*input),
        PhysicalNode::Limit { input, .. } => chunk_total(*input),
        PhysicalNode::HashJoin { left, right, .. } => chunk_total(*left) + chunk_total(*right),
    }
}

/// The input of a node that has one input.
pub open spec fn single_input(node: PhysicalNode) -> Option<PhysicalNode> {
    match node {
        PhysicalNode::ChunkedScan { .. } => None,
        PhysicalNode::Filter { input, .. } => Some(*input),
        PhysicalNode::Projection { input, .. } => Some(*input),
        PhysicalNode::PartialAggregate { input, .. } => Some(*input),
        PhysicalNode::MergeAggregate { input, .. } => Some(*input),
        PhysicalNode::Sort { input, .. } => Some(*input),
        PhysicalNode::Limit { input, .. } => Some(*input),
        PhysicalNode::HashJoin { .. } => None,
    }
}

/// `tasks` are the tasks of a plan below and at `node`, inputs before the node
/// itself, left before right. Each task depends on the tasks of its inputs.
pub open spec fn plan_tasks(node: PhysicalNode, tasks: Seq<ProvingTask>) -> bool
    decreases node,
{
    let n = tasks.len();
    &&& n == node_count(node)
    &&& encodes(node, tasks.last().operator)
    &&& match node {
        PhysicalNode::ChunkedScan { .. } => tasks.last().depends_on@.len() == 0,
        PhysicalNode::Filter { input, .. } => plan_above(tasks) && plan_tasks(
            *input,
            tasks.drop_last(),
        ),
        PhysicalNode::Projection { input, .. } => plan_above(tasks) && plan_tasks(
            *input,
            tasks.drop_last(),
        ),
        PhysicalNode::PartialAggregate { input, .. } => plan_above(tasks) && plan_tasks(
            *input,
            tasks.drop_last(),
        ),
        PhysicalNode::MergeAggregate { input, .. } => plan_above(tasks) && plan_tasks(
            *input,
            tasks.drop_last(),
        ),
        PhysicalNode::Sort { input, .. } => plan_above(tasks) && plan_tasks(
            *input,
            tasks.drop_last(),
        ),
        PhysicalNode::Limit { input, .. } => plan_above(tasks) && plan_tasks(
            *input,
            tasks.drop_last(),
        ),
        PhysicalNode::HashJoin { left, right, .. } => {
            let k = node_count(*left) as int;
            &&& plan_tasks(*left, tasks.take(k))
            &&& plan_tasks(*right, tasks.subrange(k, n - 1))
            &&& tasks.last().depends_on@ == seq![tasks[k - 1].task_id, tasks[n - 2].task_id]
        },
    }
}

/// The last task depends on the one before it.
pub open spec fn plan_above(tasks: Seq<ProvingTask>) -> bool {
    tasks.last().depends_on@ == seq![tasks[tasks.len() - 2].task_id]
}

/// The number of leaves among tasks.
pub open spec fn leaves(tasks: Seq<ProvingTask>) -> nat
    decreases tasks.len(),
{
    if tasks.len() == 0 {
        0
    } else {
        leaves(tasks.drop_last()) + if tasks.last().leaf() {
            1nat
        } else {
            0nat
        }
    }
}

/// Copies an optional list of names.
fn copy_names(v: &Option<Vec<String>>) -> (r: Option<Vec<String>>)
    ensures
        names(r) == names(*v),
{
    match v {
        None => None,
        Some(s) => {
            let mut r: Vec<String> = Vec::new();
            let mut i: usize = 0;
            while i < s.len()
                invariant
                    i <= s@.len(),
                    r@.len() == i,
                    forall|k: int| 0 <= k < i ==> (#[trigger] r@[k])@ == s@[k]@,
                decreases s@.len() - i,
            {
                r.push(s[i].clone());
                i = i + 1;
            }
            assert(texts(r@) =~= texts(s@));
            Some(r)
        },
    }
}

/// Copies chunk indices.
fn copy_chunks(v: &Vec<u32>) -> (r: Vec<u32>)
    ensures
        r@ == v@,
{
    let mut r: Vec<u32> = Vec::new();
    let mut i: usize = 0;
    while i < v.len()
        invariant
            i <= v@.len(),
            r@ =~= v@.take(i as int),
        decreases v@.len() - i,
    {
        r.push(v[i]);
        i = i + 1;
    }
    assert(r@ =~= v@);
    r
}

/// Copies the JSON text of an optional expression.
fn copy_optional_json(e: &Option<Expr>) -> (r: Option<String>)
    ensures
        optional_text(r) == optional_json(*e),
{
    match e {
        Some(x) => Some(x.json.clone()),
        None => None,
    }
}

/// A list of one task.
fn one_task(a: TaskId) -> (r: Vec<TaskId>)
    ensures
        r@ == seq![a],
{
    let mut r: Vec<TaskId> = Vec::new();
    r.push(a);
    assert(r@ =~= seq![a]);
    r
}

/// `p` is the proof plan of a physical plan.
pub open spec fn planned(
    physical: PhysicalPlan,
    snapshot_root: CommitmentRoot,
    query_id: QueryId,
    p: ProofPlan,
) -> bool {
    &&& plan_tasks(physical.root, p.topology.tasks@)
    &&& p.topology.root_task_id == p.topology.tasks@.last().task_id
    &&& p.leaf_count == chunk_total(physical.root) % 0x1_0000_0000
    &&& p.query_id == query_id
    &&& p.snapshot_id == physical.snapshot_id
    &&& p.dataset_id == physical.dataset_id
    &&& p.snapshot_root == snapshot_root
    &&& p.poseidon_snap_lo == 0
    &&& !p.operator_params.sort_descending
    &&& p.operator_params.limit == 0
    &&& p.schema_json is None
}

/// Makes proof plans of physical plans.
pub struct ProofPlanner;

impl ProofPlanner {
    /// Makes a task of each node of a physical plan.
    pub fn plan(
        physical: PhysicalPlan,
        snapshot_root: CommitmentRoot,
        query_id: QueryId,
    ) -> (r: ZkResult<ProofPlan>)
        ensures
            r matches Ok(p) && {
                &&& plan_tasks(physical.root, p.topology.tasks@)
                &&& p.topology.root_task_id == p.topology.tasks@.last().task_id
                &&& p.leaf_count == chunk_total(physical.root) % 0x1_0000_0000
                &&& p.query_id == query_id
                &&& p.snapshot_id == physical.snapshot_id
                &&& p.dataset_id == physical.dataset_id
                &&& p.snapshot_root == snapshot_root
                &&& p.poseidon_snap_lo == 0
                &&& !p.operator_params.sort_descending
                &&& p.operator_params.limit == 0
                &&& p.schema_json is None
            },
            r matches Ok(p) ==> planned(physical, snapshot_root, query_id, p),
    {
        let mut tasks: Vec<ProvingTask> = Vec::new();
        let root_task_id: TaskId = match Self::translate_node(&physical.root, &mut tasks) {
            Ok(id) => id,
            Err(e) => {
                return Err(e);
            },
        };
        assert(tasks@.skip(0) =~= tasks@);
        let leaf_count: u32 = Self::count_chunks(&physical.root);
        Ok(
            ProofPlan {
                query_id,
                snapshot_id: physical.snapshot_id,
                dataset_id: physical.dataset_id,
                snapshot_root,
                topology: AggregationTopology { tasks, root_task_id },
                leaf_count,
                poseidon_snap_lo: 0,
                operator_params: OperatorParams::default(),
                schema_json: None,
            },
        )
    }

    /// Counts the chunks of all scans of a plan, modulo 2^32.
    fn count_chunks(node: &PhysicalNode) -> (r: u32)
        ensures
            r == chunk_total(*node) % 0x1_0000_0000,
        decreases node,
    {
        match node {
            PhysicalNode::ChunkedScan { chunk_indices, .. } => {
                (chunk_indices.len() as u64 % 0x1_0000_0000) as u32
            },
            PhysicalNode::Filter { input, .. } => Self::count_chunks(input),
            PhysicalNode::Projection { input, .. } => Self::count_chunks(input),
            PhysicalNode::PartialAggregate { input, .. } => Self::count_chunks(input),
            PhysicalNode::MergeAggregate { input, .. } => Self::count_chunks(input),
            PhysicalNode::Sort { input, .. } => Self::count_chunks(input),
            PhysicalNode::Limit { input, .. } => Self::count_chunks(input),
            PhysicalNode::HashJoin { left, right, .. } => {
                let a: u64 = Self::count_chunks(left) as u64;
                let b: u64 = Self::count_chunks(right) as u64;
                ((a + b) % 0x1_0000_0000) as u32
            },
        }
    }

    /// Appends the task of a node, whose inputs' tasks are already there.
    fn push_task(
        tasks: &mut Vec<ProvingTask>,
        operator: ProofOperator,
        depends_on: Vec<TaskId>,
    ) -> (r: TaskId)
        ensures
            final(tasks)@.len() == old(tasks)@.len() + 1,
            final(tasks)@.drop_last() == old(tasks)@,
            final(tasks)@.last().task_id == r,
            final(tasks)@.last().operator == operator,
            final(tasks)@.last().depends_on == depends_on,
    {
        let task_id: TaskId = TaskId::new();
        tasks.push(ProvingTask { task_id, operator, depends_on });
        assert(tasks@.drop_last() =~= old(tasks)@);
        task_id
    }

    /// Appends the tasks of a node and of what is below it, and returns the
    /// node's own task.
    pub fn translate_node(node: &PhysicalNode, tasks: &mut Vec<ProvingTask>) -> (r: ZkResult<TaskId>)
        ensures
            final(tasks)@.len() == old(tasks)@.len() + node_count(*node),
            final(tasks)@.take(old(tasks)@.len() as int) == old(tasks)@,
            plan_tasks(*node, final(tasks)@.skip(old(tasks)@.len() as int)),
            r matches Ok(id) && id == final(tasks)@.last().task_id,
        decreases node,
    {
        let ghost before = tasks@;
        let start: usize = tasks.len();
        match node {
            PhysicalNode::ChunkedScan { chunk_indices, columns, .. } => {
                let operator: ProofOperator = ProofOperator::Scan {
                    chunk_indices: copy_chunks(chunk_indices),
                    column_names: copy_names(columns),
                };
                let id: TaskId = Self::push_task(tasks, operator, Vec::new());
                assert(tasks@.take(start as int) =~= before);
                Ok(id)
            },
            PhysicalNode::Filter { input, predicate } => {
                let dep: TaskId = match Self::translate_node(input, tasks) {
                    Ok(d) => d,
                    Err(e) => {
                        return Err(e);
                    },
                };
                let ghost below = tasks@;
                let operator: ProofOperator = ProofOperator::Filter {
                    predicate_json: predicate.json.clone(),
                };
                let id: TaskId = Self::push_task(tasks, operator, one_task(dep));
                proof {
                    appended(before, below, tasks@);
                }
                Ok(id)
            },
            PhysicalNode::Projection { input, items } => {
                let dep: TaskId = match Self::translate_node(input, tasks) {
                    Ok(d) => d,
                    Err(e) => {
                        return Err(e);
                    },
                };
                let ghost below = tasks@;
                let operator: ProofOperator = ProofOperator::Projection {
                    items_json: items_json(items),
                };
                let id: TaskId = Self::push_task(tasks, operator, one_task(dep));
                proof {
                    appended(before, below, tasks@);
                }
                Ok(id)
            },
            PhysicalNode::PartialAggregate { input, group_by, aggregates } => {
                let dep: TaskId = match Self::translate_node(input, tasks) {
                    Ok(d) => d,
                    Err(e) => {
                        return Err(e);
                    },
                };
                let ghost below = tasks@;
                let operator: ProofOperator = ProofOperator::PartialAggregate {
                    group_by_json: exprs_json(group_by),
                    aggregates_json: aggregates_json(aggregates),
                };
                let id: TaskId = Self::push_task(tasks, operator, one_task(dep));
                proof {
                    appended(before, below, tasks@);
                }
                Ok(id)
            },
            PhysicalNode::MergeAggregate { input, group_by, aggregates, having } => {
                let dep: TaskId = match Self::translate_node(input, tasks) {
                    Ok(d) => d,
                    Err(e) => {
                        return Err(e);
                    },
                };
                let ghost below = tasks@;
                let operator: ProofOperator = ProofOperator::MergeAggregate {
                    group_by_json: exprs_json(group_by),
                    aggregates_json: aggregates_json(aggregates),
                    having_json: copy_optional_json(having),
                };
                let id: TaskId = Self::push_task(tasks, operator, one_task(dep));
                proof {
                    appended(before, below, tasks@);
                }
                Ok(id)
            },
            PhysicalNode::Sort { input, keys } => {
                let dep: TaskId = match Self::translate_node(input, tasks) {
                    Ok(d) => d,
                    Err(e) => {
                        return Err(e);
                    },
                };
                let ghost below = tasks@;
                let operator: ProofOperator = ProofOperator::Sort { keys_json: keys_json(keys) };
                let id: TaskId = Self::push_task(tasks, operator, one_task(dep));
                proof {
                    appended(before, below, tasks@);
                }
                Ok(id)
            },
            PhysicalNode::Limit { input, n, offset } => {
                let dep: TaskId = match Self::translate_node(input, tasks) {
                    Ok(d) => d,
                    Err(e) => {
                        return Err(e);
                    },
                };
                let ghost below = tasks@;
                let operator: ProofOperator = ProofOperator::Limit { n: *n, offset: *offset };
                let id: TaskId = Self::push_task(tasks, operator, one_task(dep));
                proof {
                    appended(before, below, tasks@);
                }
                Ok(id)
            },
            PhysicalNode::HashJoin { left, right, kind, condition } => {
                let left_dep: TaskId = match Self::translate_node(left, tasks) {
                    Ok(d) => d,
                    Err(e) => {
                        return Err(e);
                    },
                };
                let ghost middle = tasks@;
                let right_dep: TaskId = match Self::translate_node(right, tasks) {
                    Ok(d) => d,
                    Err(e) => {
                        return Err(e);
                    },
                };
                let ghost below = tasks@;
                let operator: ProofOperator = ProofOperator::HashJoin {
                    condition_json: copy_optional_json(condition),
                    kind_json: kind.json.clone(),
                };
                let mut deps: Vec<TaskId> = one_task(left_dep);
                deps.push(right_dep);
                let ghost deps_v = deps@;
                let id: TaskId = Self::push_task(tasks, operator, deps);
                proof {
                    let s = before.len() as int;
                    let k = node_count(**left) as int;
                    let m = middle.len() as int;
                    node_count_positive(**left);
                    node_count_positive(**right);
                    let new = tasks@.skip(s);
                    assert(new.take(k) =~= middle.skip(s)) by {
                        assert forall|i: int| 0 <= i < k implies new.take(k)[i] == middle.skip(s)[i] by {
                            assert(tasks@[s + i] == tasks@.drop_last()[s + i]);
                            assert(below.take(m)[s + i] == middle[s + i]);
                        }
                    }
                    assert(new.subrange(k, new.len() - 1) =~= below.skip(m)) by {
                        assert forall|i: int| 0 <= i < below.len() - m implies new.subrange(
                            k,
                            new.len() - 1,
                        )[i] == below.skip(m)[i] by {
                            assert(tasks@[m + i] == tasks@.drop_last()[m + i]);
                        }
                    }
                    assert(tasks@.take(s) =~= before) by {
                        assert forall|i: int| 0 <= i < s implies tasks@[i] == before[i] by {
                            assert(tasks@[i] == tasks@.drop_last()[i]);
                            assert(below.take(m)[i] == middle[i]);
                            assert(middle.take(s)[i] == before[i]);
                        }
                    }
                    assert(new[k - 1].task_id == left_dep) by {
                        assert(tasks@[m - 1] == tasks@.drop_last()[m - 1]);
                        assert(below.take(m)[m - 1] == middle[m - 1]);
                    }
                    assert(new[new.len() - 2].task_id == right_dep) by {
                        assert(tasks@[below.len() - 1] == tasks@.drop_last()[below.len() - 1]);
                    }
                    assert(deps_v =~= seq![left_dep, right_dep]);
                    assert(new.last() == tasks@.last());
                }
                Ok(id)
            },
        }
    }
}

/// Every plan has a node.
proof fn node_count_positive(node: PhysicalNode)
    ensures
        node_count(node) > 0,
{
}

/// Appending one task to the tasks of an input.
proof fn appended(before: Seq<ProvingTask>, below: Seq<ProvingTask>, after: Seq<ProvingTask>)
    requires
        before.len() < below.len(),
        below.take(before.len() as int) == before,
        after.len() == below.len() + 1,
        after.drop_last() == below,
    ensures
        after.take(before.len() as int) == before,
        after.skip(before.len() as int).drop_last() == below.skip(before.len() as int),
        after.skip(before.len() as int).last() == after.last(),
        after.skip(before.len() as int)[after.len() - before.len() - 2] == below.last(),
{
    let s = before.len() as int;
    assert forall|i: int| 0 <= i < below.len() implies after[i] == below[i] by {
        assert(after[i] == after.drop_last()[i]);
    }
    assert(after.take(s) =~= before) by {
        assert forall|i: int| 0 <= i < s implies after[i] == before[i] by {
            assert(below.take(s)[i] == before[i]);
        }
    }
    assert(after.skip(s).drop_last() =~= below.skip(s));
}

/// The leaves of a concatenation.
proof fn leaves_concat(a: Seq<ProvingTask>, b: Seq<ProvingTask>)
    ensures
        leaves(a + b) == leaves(a) + leaves(b),
    decreases b.len(),
{
    if b.len() == 0 {
        assert(a + b =~= a);
    } else {
        assert((a + b).drop_last() =~= a + b.drop_last());
        leaves_concat(a, b.drop_last());
    }
}

/// The leaves of a plan are its scans.
pub proof fn leaves_are_scans(node: PhysicalNode, tasks: Seq<ProvingTask>)
    requires
        plan_tasks(node, tasks),
    ensures
        leaves(tasks) == scan_count(node),
    decreases node,
{
    match node {
        PhysicalNode::ChunkedScan { .. } => {
            assert(leaves(tasks.drop_last()) == 0);
        },
        PhysicalNode::Filter { input, .. } => {
            leaves_are_scans(*input, tasks.drop_last());
        },
        PhysicalNode::Projection { input, .. } => {
            leaves_are_scans(*input, tasks.drop_last());
        },
        PhysicalNode::PartialAggregate { input, .. } => {
            leaves_are_scans(*input, tasks.drop_last());
        },
        PhysicalNode::MergeAggregate { input, .. } => {
            leaves_are_scans(*input, tasks.drop_last());
        },
        PhysicalNode::Sort { input, .. } => {
            leaves_are_scans(*input, tasks.drop_last());
        },
        PhysicalNode::Limit { input, .. } => {
            leaves_are_scans(*input, tasks.drop_last());
        },
        PhysicalNode::HashJoin { left, right, .. } => {
            let k = node_count(*left) as int;
            let a = tasks.take(k);
            let b = tasks.subrange(k, tasks.len() - 1);
            leaves_are_scans(*left, a);
            leaves_are_scans(*right, b);
            leaves_concat(a, b);
            assert(tasks.drop_last() =~= a + b);
        },
    }
}

/// Tasks are in order: whatever a task depends on stands before it.
pub proof fn tasks_are_ordered(node: PhysicalNode, tasks: Seq<ProvingTask>, i: int, d: int)
    requires
        plan_tasks(node, tasks),
        0 <= i < tasks.len(),
        0 <= d < tasks[i].depends_on@.len(),
    ensures
        exists|j: int| 0 <= j < i && #[trigger] tasks[j].task_id == tasks[i].depends_on@[d],
    decreases node,
{
    let n = tasks.len() as int;
    let input = single_input(node);
    if node is HashJoin {
        let left = node->HashJoin_left;
        let right = node->HashJoin_right;
        let k = node_count(*left) as int;
        node_count_positive(*left);
        node_count_positive(*right);
        let a = tasks.take(k);
        let b = tasks.subrange(k, n - 1);
        if i < k {
            assert(a[i] == tasks[i]);
            tasks_are_ordered(*left, a, i, d);
            let j = choose|j: int| 0 <= j < i && #[trigger] a[j].task_id == a[i].depends_on@[d];
            assert(tasks[j].task_id == tasks[i].depends_on@[d]);
        } else if i < n - 1 {
            assert(b[i - k] == tasks[i]);
            tasks_are_ordered(*right, b, i - k, d);
            let j = choose|j: int|
                0 <= j < i - k && #[trigger] b[j].task_id == b[i - k].depends_on@[d];
            assert(tasks[k + j].task_id == tasks[i].depends_on@[d]);
        } else if d == 0 {
            assert(tasks[k - 1].task_id == tasks[i].depends_on@[0]);
        } else {
            assert(tasks[n - 2].task_id == tasks[i].depends_on@[1]);
        }
    } else if input is Some {
        let t = tasks.drop_last();
        node_count_positive(input->0);
        if i < n - 1 {
            assert(t[i] == tasks[i]);
            tasks_are_ordered(input->0, t, i, d);
            let j = choose|j: int| 0 <= j < i && #[trigger] t[j].task_id == t[i].depends_on@[d];
            assert(tasks[j].task_id == tasks[i].depends_on@[d]);
        } else {
            assert(tasks[n - 2].task_id == tasks[i].depends_on@[0]);
        }
    }
}

/// The leaves of a plan are exactly the tasks that scan.
pub proof fn leaf_iff_scan(node: PhysicalNode, tasks: Seq<ProvingTask>, i: int)
    requires
        plan_tasks(node, tasks),
        0 <= i < tasks.len(),
    ensures
        tasks[i].leaf() <==> tasks[i].operator is Scan,
    decreases node,
{
    let n = tasks.len() as int;
    let input = single_input(node);
    if i == n - 1 {
        assert(tasks.last() == tasks[i]);
    } else if node is HashJoin {
        let left = node->HashJoin_left;
        let right = node->HashJoin_right;
        let k = node_count(*left) as int;
        let a = tasks.take(k);
        let b = tasks.subrange(k, n - 1);
        if i < k {
            assert(a[i] == tasks[i]);
            leaf_iff_scan(*left, a, i);
        } else {
            assert(b[i - k] == tasks[i]);
            leaf_iff_scan(*right, b, i - k);
        }
    } else if input is Some {
        let t = tasks.drop_last();
        assert(t[i] == tasks[i]);
        leaf_iff_scan(input->0, t, i);
    }
}

} // verus!
