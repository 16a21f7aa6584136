//! Which circuit proves a plan, and which plans cannot be proved.

use vstd::prelude::*;

use crate::outside::json_array_len;
use crate::outside::parse_json_array_len;
use crate::query::proof_plan::groups_by_keys;
use crate::query::proof_plan::has_keys;
use crate::query::proof_plan::root_index;
use crate::query::proof_plan::ProofOperator;
use crate::query::proof_plan::ProofPlan;
use crate::query::proof_plan::ProvingTask;
use crate::text::decimal;
use crate::text::mentioned;
use crate::text::mentions;
use crate::text::push_decimal;

verus! {

/// The tag of the aggregation circuit in a verification key.
pub const TAG_AGG: u8 = 0;

/// The tag of the ascending sort circuit.
pub const TAG_SORT: u8 = 1;

/// The tag of the grouping circuit.
pub const TAG_GROUP_BY: u8 = 2;

/// The tag of the join circuit.
pub const TAG_JOIN: u8 = 3;

/// The tag of the descending sort circuit.
pub const TAG_DESC_SORT: u8 = 4;

/// What a plan asks to be proved.
#[derive(Debug, Clone, Copy, PartialEq, Eq, Structural)]
pub enum OpKind {
    Count,
    Sum,
    Avg,
    Generic,
    Sort,
    DescSort,
    GroupBy,
    Join,
}

impl OpKind {
    /// The tag of the circuit that proves the kind.
    pub open spec fn tag(self) -> u8 {
        match self {
            OpKind::Sort => TAG_SORT,
            OpKind::DescSort => TAG_DESC_SORT,
            OpKind::GroupBy => TAG_GROUP_BY,
            OpKind::Join => TAG_JOIN,
            _ => TAG_AGG,
        }
    }

    /// The tag of the circuit that proves the kind.
    pub fn circuit_tag(&self) -> (r: u8)
        ensures
            r == self.tag(),
    {
        match self {
            OpKind::Sort => TAG_SORT,
            OpKind::DescSort => TAG_DESC_SORT,
            OpKind::GroupBy => TAG_GROUP_BY,
            OpKind::Join => TAG_JOIN,
            _ => TAG_AGG,
        }
    }
}

/// The kind of an aggregate: a grouping where there are keys, and otherwise what
/// the list of aggregates mentions first of average, sum and count.
pub open spec fn aggregate_kind(group_by_json: Seq<char>, aggregates_json: Seq<char>) -> OpKind {
    if has_keys(group_by_json) {
        OpKind::GroupBy
    } else if mentions(aggregates_json, "\"avg\""@) {
        OpKind::Avg
    } else if mentions(aggregates_json, "\"sum\""@) {
        OpKind::Sum
    } else {
        OpKind::Count
    }
}

/// The kind of an operator.
pub open spec fn operator_kind(op: ProofOperator) -> OpKind {
    match op {
        ProofOperator::HashJoin { .. } => OpKind::Join,
        ProofOperator::PartialAggregate { group_by_json, aggregates_json } => aggregate_kind(
            group_by_json@,
            aggregates_json@,
        ),
        ProofOperator::MergeAggregate { group_by_json, aggregates_json, .. } => aggregate_kind(
            group_by_json@,
            aggregates_json@,
        ),
        ProofOperator::Sort { .. } => OpKind::Sort,
        _ => OpKind::Generic,
    }
}

/// The kind of a plan: that of its root operator, where a sort is descending if
/// the plan says so.
pub open spec fn plan_kind(plan: ProofPlan) -> OpKind {
    let tasks = plan.topology.tasks@;
    if tasks.len() == 0 {
        OpKind::Generic
    } else {
        let k = operator_kind(tasks[root_index(tasks, plan.topology.root_task_id)].operator);
        if k == OpKind::Sort && plan.operator_params.sort_descending {
            OpKind::DescSort
        } else {
            k
        }
    }
}

/// Classifies an aggregate.
fn classify_aggregate(group_by_json: &String, aggregates_json: &String) -> (r: OpKind)
    ensures
        r == aggregate_kind(group_by_json@, aggregates_json@),
{
    if groups_by_keys(group_by_json) {
        return OpKind::GroupBy;
    }
    if mentioned(aggregates_json.as_str(), "\"avg\"") {
        OpKind::Avg
    } else if mentioned(aggregates_json.as_str(), "\"sum\"") {
        OpKind::Sum
    } else {
        OpKind::Count
    }
}

/// Classifies an operator.
pub fn classify_operator(op: &ProofOperator) -> (r: OpKind)
    ensures
        r == operator_kind(*op),
{
    match op {
        ProofOperator::HashJoin { .. } => OpKind::Join,
        ProofOperator::PartialAggregate {
            group_by_json,
            aggregates_json,
        } => classify_aggregate(group_by_json, aggregates_json),
        ProofOperator::MergeAggregate {
            group_by_json,
            aggregates_json,
            ..
        } => classify_aggregate(group_by_json, aggregates_json),
        ProofOperator::Sort { .. } => OpKind::Sort,
        _ => OpKind::Generic,
    }
}

/// Classifies a plan.
pub fn classify_plan_with_params(plan: &ProofPlan) -> (r: OpKind)
    ensures
        r == plan_kind(*plan),
{
    match plan.topology.root_operator() {
        None => OpKind::Generic,
        Some(op) => {
            let base: OpKind = classify_operator(op);
            if base == OpKind::Sort && plan.operator_params.sort_descending {
                OpKind::DescSort
            } else {
                base
            }
        },
    }
}

/// The number of tasks among the first `n` whose operator needs a circuit of its
/// own: sorts, joins and merged aggregates.
pub open spec fn own_circuits(tasks: Seq<ProvingTask>, n: int) -> nat
    decreases n,
{
    if n <= 0 {
        0
    } else {
        own_circuits(tasks, n - 1) + if tasks[n - 1].operator is Sort || tasks[n
            - 1].operator is HashJoin || tasks[n - 1].operator is MergeAggregate {
            1nat
        } else {
            0nat
        }
    }
}

/// Some task among the first `n` merges aggregates.
pub open spec fn merges(tasks: Seq<ProvingTask>, n: int) -> bool {
    exists|i: int| 0 <= i < n && (#[trigger] tasks[i]).operator is MergeAggregate
}

/// Some task among the first `n` is a partial aggregate.
pub open spec fn partials(tasks: Seq<ProvingTask>, n: int) -> bool {
    exists|i: int| 0 <= i < n && (#[trigger] tasks[i]).operator is PartialAggregate
}

/// The number of operators of a plan that need a proof of their own. A partial
/// aggregate is a step of the aggregate that merges it, and counts where there
/// is none.
pub open spec fn provable_operators(tasks: Seq<ProvingTask>) -> nat {
    let n = tasks.len() as int;
    own_circuits(tasks, n) + if partials(tasks, n) && !merges(tasks, n) {
        1nat
    } else {
        0nat
    }
}

/// Counts the operators of a plan that need a proof of their own.
fn count_provable(tasks: &Vec<ProvingTask>) -> (r: u64)
    ensures
        r == provable_operators(tasks@),
{
    let mut own: u64 = 0;
    let mut merged: bool = false;
    let mut partial: bool = false;
    let len: usize = tasks.len();
    let mut i: usize = 0;
    while i < len
        invariant
            len == tasks@.len(),
            i <= len,
            own <= i,
            own == own_circuits(tasks@, i as int),
            merged == merges(tasks@, i as int),
            partial == partials(tasks@, i as int),
        decreases len - i,
    {
        proof {
            assert(merges(tasks@, i + 1) == (merges(tasks@, i as int)
                || tasks@[i as int].operator is MergeAggregate)) by {
                if merges(tasks@, i as int) {
                    let k = choose|k: int|
                        0 <= k < i && (#[trigger] tasks@[k]).operator is MergeAggregate;
                    assert(tasks@[k].operator is MergeAggregate);
                }
            }
            assert(partials(tasks@, i + 1) == (partials(tasks@, i as int)
                || tasks@[i as int].operator is PartialAggregate)) by {
                if partials(tasks@, i as int) {
                    let k = choose|k: int|
                        0 <= k < i && (#[trigger] tasks@[k]).operator is PartialAggregate;
                    assert(tasks@[k].operator is PartialAggregate);
                }
            }
        }
        match &tasks[i].operator {
            ProofOperator::Sort { .. } => {
                own = own + 1;
            },
            ProofOperator::HashJoin { .. } => {
                own = own + 1;
            },
            ProofOperator::MergeAggregate { .. } => {
                own = own + 1;
                merged = true;
            },
            ProofOperator::PartialAggregate { .. } => {
                partial = true;
            },
            _ => {},
        }
        i = i + 1;
    }
    if partial && !merged {
        proof {
            partial_leaves_room(tasks@, len as int);
        }
        own + 1
    } else {
        own
    }
}

/// A partial aggregate is not counted by itself.
proof fn partial_leaves_room(tasks: Seq<ProvingTask>, n: int)
    requires
        0 <= n <= tasks.len(),
        partials(tasks, n),
    ensures
        own_circuits(tasks, n) < n,
    decreases n,
{
    if n > 0 {
        let k = choose|k: int| 0 <= k < n && (#[trigger] tasks[k]).operator is PartialAggregate;
        if k == n - 1 {
            own_circuits_bound(tasks, n - 1);
        } else {
            assert(tasks[k].operator is PartialAggregate);
            partial_leaves_room(tasks, n - 1);
        }
    }
}

proof fn own_circuits_bound(tasks: Seq<ProvingTask>, n: int)
    requires
        0 <= n,
    ensures
        own_circuits(tasks, n) <= n,
    decreases n,
{
    if n > 0 {
        own_circuits_bound(tasks, n - 1);
    }
}

/// Some task limits the number of rows.
pub open spec fn limits(tasks: Seq<ProvingTask>) -> bool {
    exists|i: int| 0 <= i < tasks.len() && (#[trigger] tasks[i]).operator is Limit
}

/// Tests whether some task limits the number of rows.
fn has_limit(tasks: &Vec<ProvingTask>) -> (r: bool)
    ensures
        r == limits(tasks@),
{
    let mut i: usize = 0;
    while i < tasks.len()
        invariant
            i <= tasks@.len(),
            forall|k: int| 0 <= k < i ==> !((#[trigger] tasks@[k]).operator is Limit),
        decreases tasks@.len() - i,
    {
        match &tasks[i].operator {
            ProofOperator::Limit { .. } => {
                assert(tasks@[i as int].operator is Limit);
                return true;
            },
            _ => {},
        }
        i = i + 1;
    }
    false
}

/// Why a sort by that many keys cannot be proved, if it cannot. Keys whose number
/// is not known pass.
pub open spec fn extra_keys(count: Option<usize>) -> Option<Seq<char>> {
    match count {
        Some(n) => if n > 1 {
            Some(
                "UNSUPPORTED: multi-column ORDER BY is not yet provable. keys_json has "@
                    + decimal(n as nat)
                    + " sort keys; single-column ORDER BY only. Remove extra sort keys or use ConstraintCheckedBackend."@,
            )
        } else {
            None
        },
        None => None,
    }
}

/// Says why a sort by that many keys cannot be proved, if it cannot.
pub fn extra_keys_text(count: Option<usize>) -> (r: Option<String>)
    ensures
        r is Some <==> extra_keys(count) is Some,
        r matches Some(m) ==> extra_keys(count) == Some(m@),
{
    match count {
        Some(n) => {
            if n > 1 {
                let mut m: String =
                    "UNSUPPORTED: multi-column ORDER BY is not yet provable. keys_json has ".to_owned();
                push_decimal(&mut m, n as u64);
                m.append(
                    " sort keys; single-column ORDER BY only. Remove extra sort keys or use ConstraintCheckedBackend.",
                );
                Some(m)
            } else {
                None
            }
        },
        None => None,
    }
}

/// Why a task cannot be proved for its sort keys, if it cannot.
pub open spec fn task_extra_keys(task: ProvingTask) -> Option<Seq<char>> {
    match task.operator {
        ProofOperator::Sort { keys_json } => extra_keys(json_array_len(keys_json@)),
        _ => None,
    }
}

/// Why the first task, at or after `i`, that sorts by too many keys cannot be
/// proved.
pub open spec fn first_extra_keys(tasks: Seq<ProvingTask>, i: int) -> Option<Seq<char>>
    decreases tasks.len() - i,
{
    if i >= tasks.len() {
        None
    } else if task_extra_keys(tasks[i]) is Some {
        task_extra_keys(tasks[i])
    } else {
        first_extra_keys(tasks, i + 1)
    }
}

/// Looks for a sort by more than one key.
fn find_extra_keys(tasks: &Vec<ProvingTask>) -> (r: Option<String>)
    ensures
        r is Some <==> first_extra_keys(tasks@, 0) is Some,
        r matches Some(m) ==> first_extra_keys(tasks@, 0) == Some(m@),
{
    let mut i: usize = 0;
    while i < tasks.len()
        invariant
            i <= tasks@.len(),
            first_extra_keys(tasks@, 0) == first_extra_keys(tasks@, i as int),
        decreases tasks@.len() - i,
    {
        match &tasks[i].operator {
            ProofOperator::Sort { keys_json } => {
                let refusal: Option<String> = extra_keys_text(
                    parse_json_array_len(keys_json.as_str()),
                );
                if refusal.is_some() {
                    return refusal;
                }
            },
            _ => {},
        }
        i = i + 1;
    }
    None
}

/// Why a plan cannot be proved, if it cannot: it has more than one operator that
/// needs a proof of its own, it limits the number of rows, or it sorts by more
/// than one key.
pub open spec fn unsupported(tasks: Seq<ProvingTask>) -> Option<Seq<char>> {
    if provable_operators(tasks) > 1 {
        Some(
            "UNSUPPORTED: multi-operator composed proof plans are not yet implemented. Found "@
                + decimal(provable_operators(tasks))
                + " independently-provable operators. Each query may contain at most ONE of: Sort, Aggregate, GroupBy, Join. Compose multi-operator queries only through future recursive folding."@,
        )
    } else if limits(tasks) {
        Some(
            "UNSUPPORTED: LIMIT/TOP-K is not yet provable in Plonky2. The sorted output cardinality cannot be circuit-constrained without additional selector machinery. Remove LIMIT from the query or use ConstraintCheckedBackend for this query."@,
        )
    } else {
        first_extra_keys(tasks, 0)
    }
}

/// Says why a plan cannot be proved, if it cannot.
pub fn find_unsupported(tasks: &Vec<ProvingTask>) -> (r: Option<String>)
    ensures
        r is Some <==> unsupported(tasks@) is Some,
        r matches Some(m) ==> unsupported(tasks@) == Some(m@),
{
    let n: u64 = count_provable(tasks);
    if n > 1 {
        let mut m: String =
            "UNSUPPORTED: multi-operator composed proof plans are not yet implemented. Found ".to_owned();
        push_decimal(&mut m, n);
        m.append(
            " independently-provable operators. Each query may contain at most ONE of: Sort, Aggregate, GroupBy, Join. Compose multi-operator queries only through future recursive folding.",
        );
        return Some(m);
    }
    if has_limit(tasks) {
        return Some(
            "UNSUPPORTED: LIMIT/TOP-K is not yet provable in Plonky2. The sorted output cardinality cannot be circuit-constrained without additional selector machinery. Remove LIMIT from the query or use ConstraintCheckedBackend for this query.".to_owned(),
        );
    }
    find_extra_keys(tasks)
}

} // verus!
