//! What planning keeps: every node of a plan becomes its tasks, in order, with
//! everything that the node carries.

use vstd::prelude::*;

use crate::commitment::root::CommitmentRoot;
use crate::database::SnapshotManifest;
use crate::query::ast::agg_texts;
use crate::query::ast::comma_separated;
use crate::query::ast::expr_texts;
use crate::query::ast::item_texts;
use crate::query::ast::json_array;
use crate::query::ast::key_texts;
use crate::query::logical_plan::LogicalNode;
use crate::query::logical_plan::LogicalPlan;
use crate::query::physical_plan::assigned;
use crate::query::physical_plan::translates;
use crate::query::physical_plan::PhysicalNode;
use crate::query::physical_plan::PhysicalPlan;
use crate::query::proof_plan::chunk_total;
use crate::query::proof_plan::encodes;
use crate::query::proof_plan::first_with;
use crate::query::proof_plan::has_keys;
use crate::query::proof_plan::names;
use crate::query::proof_plan::node_count;
use crate::query::proof_plan::optional_json;
use crate::query::proof_plan::optional_text;
use crate::query::proof_plan::plan_above;
use crate::query::proof_plan::plan_tasks;
use crate::query::proof_plan::planned;
use crate::query::proof_plan::root_index;
use crate::query::proof_plan::single_input;
use crate::query::proof_plan::ProofOperator;
use crate::query::proof_plan::ProofPlan;
use crate::query::proof_plan::ProvingTask;
use crate::query::proof_plan::TaskId;
use crate::text::is_space;
use crate::types::QueryId;

verus! {

/// Where item `i` of a JSON list starts.
pub open spec fn item_offset(items: Seq<Seq<char>>, i: int) -> int
    decreases i,
{
    if i <= 0 {
        1
    } else {
        item_offset(items, i - 1) + items[i - 1].len() + 1
    }
}

/// `text` is the JSON list of the items: they stand in order between brackets,
/// with one comma between neighbours and nothing else.
pub open spec fn lists(text: Seq<char>, items: Seq<Seq<char>>) -> bool {
    let n = items.len() as int;
    &&& text.len() == if n == 0 {
        2
    } else {
        item_offset(items, n)
    }
    &&& text[0] == '['
    &&& text[text.len() - 1] == ']'
    &&& forall|i: int|
        0 <= i < n ==> text.subrange(
            #[trigger] item_offset(items, i),
            item_offset(items, i) + items[i].len(),
        ) == items[i]
    &&& forall|i: int| 0 < i < n ==> text[#[trigger] item_offset(items, i) - 1] == ','
}

/// Offsets in a list depend on the items before alone.
proof fn offsets_of_prefix(items: Seq<Seq<char>>, i: int)
    requires
        0 <= i < items.len(),
    ensures
        item_offset(items.drop_last(), i) == item_offset(items, i),
        item_offset(items, i) >= 1,
    decreases i,
{
    if i > 0 {
        offsets_of_prefix(items, i - 1);
    }
}

/// Later items start later.
proof fn offsets_rise(items: Seq<Seq<char>>, i: int, j: int)
    requires
        0 <= i < j <= items.len(),
    ensures
        item_offset(items, i) + items[i].len() + 1 <= item_offset(items, j),
    decreases j,
{
    if i < j - 1 {
        offsets_rise(items, i, j - 1);
    }
}

/// The layout of items with commas between them.
proof fn comma_layout(items: Seq<Seq<char>>)
    requires
        items.len() > 0,
    ensures
        ({
            let c = comma_separated(items);
            let n = items.len() as int;
            &&& c.len() == item_offset(items, n) - 2
            &&& forall|i: int|
                0 <= i < n ==> c.subrange(
                    #[trigger] item_offset(items, i) - 1,
                    item_offset(items, i) - 1 + items[i].len(),
                ) == items[i]
            &&& forall|i: int| 0 < i < n ==> c[#[trigger] item_offset(items, i) - 2] == ','
        }),
    decreases items.len(),
{
    let c = comma_separated(items);
    let n = items.len() as int;
    reveal_strlit(",");
    if n == 1 {
        assert(item_offset(items, 1) == item_offset(items, 0) + items[0].len() + 1);
        assert(c.subrange(0, items[0].len() as int) =~= items[0]);
    } else {
        let t = items.drop_last();
        let b = comma_separated(t);
        comma_layout(t);
        offsets_of_prefix(items, n - 1);
        assert(item_offset(items, n) == item_offset(items, n - 1) + items[n - 1].len() + 1);
        assert forall|i: int| 0 <= i < n implies c.subrange(
            #[trigger] item_offset(items, i) - 1,
            item_offset(items, i) - 1 + items[i].len(),
        ) == items[i] by {
            let o = item_offset(items, i) - 1;
            offsets_of_prefix(items, i);
            if i < n - 1 {
                offsets_rise(items, i, n - 1);
                assert(b.subrange(item_offset(t, i) - 1, item_offset(t, i) - 1 + t[i].len()) == t[i]);
                assert(c.subrange(o, o + items[i].len()) =~= b.subrange(o, o + items[i].len()));
            } else {
                assert(c.subrange(o, o + items[i].len()) =~= items[i]);
            }
        }
        assert forall|i: int| 0 < i < n implies c[#[trigger] item_offset(items, i) - 2] == ',' by {
            offsets_of_prefix(items, i);
            if i < n - 1 {
                offsets_rise(items, i, n - 1);
                offsets_rise(items, 0, i);
                assert(b[item_offset(t, i) - 2] == ',');
            } else {
                assert(c[b.len() as int] == ","@[0]);
            }
        }
    }
}

/// The JSON text of a list holds its items, whole and in order.
pub proof fn json_lists_hold_their_items(items: Seq<Seq<char>>)
    ensures
        lists(json_array(items), items),
{
    let text = json_array(items);
    let n = items.len() as int;
    let c = comma_separated(items);
    reveal_strlit("[");
    reveal_strlit("]");
    if n > 0 {
        comma_layout(items);
        assert forall|i: int| 0 <= i < n implies text.subrange(
            #[trigger] item_offset(items, i),
            item_offset(items, i) + items[i].len(),
        ) == items[i] by {
            let o = item_offset(items, i);
            offsets_of_prefix(items, i);
            offsets_rise(items, i, n);
            assert(c.subrange(o - 1, o - 1 + items[i].len()) == items[i]);
            assert(text.subrange(o, o + items[i].len()) =~= c.subrange(o - 1, o - 1 + items[i].len()));
        }
        assert forall|i: int| 0 < i < n implies text[#[trigger] item_offset(items, i) - 1] == ',' by {
            offsets_rise(items, 0, i);
            offsets_rise(items, i, n);
            assert(c[item_offset(items, i) - 2] == ',');
        }
    }
}

/// The nodes of a physical plan, inputs before the node itself, left before right.
pub open spec fn post_order(node: PhysicalNode) -> Seq<PhysicalNode>
    decreases node,
{
    match node {
        PhysicalNode::ChunkedScan { .. } => seq![node],
        PhysicalNode::Filter { input, .. } => post_order(*input).push(node),
        PhysicalNode::Projection { input, .. } => post_order(*input).push(node),
        PhysicalNode::PartialAggregate { input, .. } => post_order(*input).push(node),
        PhysicalNode::MergeAggregate { input, .. } => post_order(*input).push(node),
        PhysicalNode::Sort { input, .. } => post_order(*input).push(node),
        PhysicalNode::Limit { input, .. } => post_order(*input).push(node),
        PhysicalNode::HashJoin { left, right, .. } => (post_order(*left) + post_order(*right)).push(
            node,
        ),
    }
}

/// An optional text is there exactly where the optional expression is, and is its
/// JSON text.
pub open spec fn same_option(t: Option<String>, e: Option<crate::query::ast::Expr>) -> bool {
    &&& t is Some <==> e is Some
    &&& e is Some ==> t->0@ == e->0.json@
}

/// A task's operator carries all that its node carries.
pub open spec fn carries(node: PhysicalNode, op: ProofOperator) -> bool {
    match node {
        PhysicalNode::ChunkedScan { chunk_indices, columns, .. } => {
            &&& op is Scan
            &&& op->chunk_indices@ == chunk_indices@
            &&& op->column_names is Some <==> columns is Some
            &&& columns is Some ==> {
                &&& op->column_names->0@.len() == columns->0@.len()
                &&& forall|i: int|
                    0 <= i < columns->0@.len() ==> (#[trigger] op->column_names->0@[i])@
                        == columns->0@[i]@
            }
        },
        PhysicalNode::Filter { predicate, .. } => {
            op is Filter && op->predicate_json@ == predicate.json@
        },
        PhysicalNode::Projection { items, .. } => {
            op is Projection && lists(
                op->items_json@,
                Seq::new(items@.len(), |i: int| items@[i].json@),
            )
        },
        PhysicalNode::PartialAggregate { group_by, aggregates, .. } => {
            &&& op is PartialAggregate
            &&& lists(
                op->PartialAggregate_group_by_json@,
                Seq::new(group_by@.len(), |i: int| group_by@[i].json@),
            )
            &&& lists(
                op->PartialAggregate_aggregates_json@,
                Seq::new(aggregates@.len(), |i: int| aggregates@[i].json@),
            )
        },
        PhysicalNode::MergeAggregate { group_by, aggregates, having, .. } => {
            &&& op is MergeAggregate
            &&& lists(
                op->MergeAggregate_group_by_json@,
                Seq::new(group_by@.len(), |i: int| group_by@[i].json@),
            )
            &&& lists(
                op->MergeAggregate_aggregates_json@,
                Seq::new(aggregates@.len(), |i: int| aggregates@[i].json@),
            )
            &&& same_option(op->having_json, having)
        },
        PhysicalNode::Sort { keys, .. } => {
            op is Sort && lists(op->keys_json@, Seq::new(keys@.len(), |i: int| keys@[i].json@))
        },
        PhysicalNode::Limit { n, offset, .. } => {
            op is Limit && op->n == n && op->offset == offset
        },
        PhysicalNode::HashJoin { kind, condition, .. } => {
            &&& op is HashJoin
            &&& op->kind_json@ == kind.json@
            &&& same_option(op->condition_json, condition)
        },
    }
}

/// The last task carries all that the root of its plan carries.
proof fn root_is_carried(node: PhysicalNode, op: ProofOperator)
    requires
        encodes(node, op),
    ensures
        carries(node, op),
{
    match node {
        PhysicalNode::ChunkedScan { columns, .. } => {
            if columns is Some {
                let a = op->column_names->0@;
                let b = columns->0@;
                let s = crate::proofs::artifacts::texts(a);
                let t = crate::proofs::artifacts::texts(b);
                assert(names(op->column_names) == names(columns));
                assert(s == t);
                assert(s.len() == t.len());
                assert forall|i: int| 0 <= i < b.len() implies (#[trigger] a[i])@ == b[i]@ by {
                    assert(s[i] == t[i]);
                }
            }
        },
        PhysicalNode::Projection { items, .. } => {
            let t = Seq::new(items@.len(), |i: int| items@[i].json@);
            assert(item_texts(items@) =~= t);
            json_lists_hold_their_items(t);
        },
        PhysicalNode::PartialAggregate { group_by, aggregates, .. } => {
            let t = Seq::new(group_by@.len(), |i: int| group_by@[i].json@);
            let u = Seq::new(aggregates@.len(), |i: int| aggregates@[i].json@);
            assert(expr_texts(group_by@) =~= t);
            assert(agg_texts(aggregates@) =~= u);
            json_lists_hold_their_items(t);
            json_lists_hold_their_items(u);
        },
        PhysicalNode::MergeAggregate { group_by, aggregates, having, .. } => {
            let t = Seq::new(group_by@.len(), |i: int| group_by@[i].json@);
            let u = Seq::new(aggregates@.len(), |i: int| aggregates@[i].json@);
            assert(expr_texts(group_by@) =~= t);
            assert(agg_texts(aggregates@) =~= u);
            json_lists_hold_their_items(t);
            json_lists_hold_their_items(u);
            assert(optional_text(op->having_json) == optional_json(having));
        },
        PhysicalNode::Sort { keys, .. } => {
            let t = Seq::new(keys@.len(), |i: int| keys@[i].json@);
            assert(key_texts(keys@) =~= t);
            json_lists_hold_their_items(t);
        },
        PhysicalNode::HashJoin { condition, .. } => {
            assert(optional_text(op->condition_json) == optional_json(condition));
        },
        _ => {},
    }
}

/// Planning loses nothing: a plan has one task for each node, in the order of the
/// nodes, and each task carries all that its node carries. In particular a join
/// task has a condition exactly where its node has one, and it is that one.
pub proof fn tasks_carry_their_nodes(node: PhysicalNode, tasks: Seq<ProvingTask>)
    requires
        plan_tasks(node, tasks),
    ensures
        tasks.len() == post_order(node).len(),
        forall|i: int|
            0 <= i < tasks.len() ==> carries(post_order(node)[i], (#[trigger] tasks[i]).operator),
    decreases node,
{
    let n = tasks.len() as int;
    let nodes = post_order(node);
    let input = single_input(node);
    root_is_carried(node, tasks.last().operator);
    if node is HashJoin {
        let left = node->HashJoin_left;
        let right = node->HashJoin_right;
        let k = node_count(*left) as int;
        let a = tasks.take(k);
        let b = tasks.subrange(k, n - 1);
        tasks_carry_their_nodes(*left, a);
        tasks_carry_their_nodes(*right, b);
        assert forall|i: int| 0 <= i < n implies carries(nodes[i], (#[trigger] tasks[i]).operator) by {
            if i < k {
                assert(carries(post_order(*left)[i], a[i].operator));
            } else if i < n - 1 {
                assert(carries(post_order(*right)[i - k], b[i - k].operator));
            }
        }
    } else if input is Some {
        let t = tasks.drop_last();
        tasks_carry_their_nodes(input->0, t);
        assert forall|i: int| 0 <= i < n implies carries(nodes[i], (#[trigger] tasks[i]).operator) by {
            if i < n - 1 {
                assert(carries(post_order(input->0)[i], t[i].operator));
            }
        }
    }
}

/// The nodes that go into a node, left before right.
pub open spec fn inputs_of(node: PhysicalNode) -> Seq<PhysicalNode> {
    match node {
        PhysicalNode::ChunkedScan { .. } => Seq::empty(),
        PhysicalNode::Filter { input, .. } => seq![*input],
        PhysicalNode::Projection { input, .. } => seq![*input],
        PhysicalNode::PartialAggregate { input, .. } => seq![*input],
        PhysicalNode::MergeAggregate { input, .. } => seq![*input],
        PhysicalNode::Sort { input, .. } => seq![*input],
        PhysicalNode::Limit { input, .. } => seq![*input],
        PhysicalNode::HashJoin { left, right, .. } => seq![*left, *right],
    }
}

/// A task depends on the tasks of what goes into its node: the last input stands
/// right before it, and the input before that one right before all of the last.
pub open spec fn depends_on_inputs(nodes: Seq<PhysicalNode>, tasks: Seq<ProvingTask>, i: int) -> bool {
    let ins = inputs_of(nodes[i]);
    let deps = tasks[i].depends_on@;
    &&& deps.len() == ins.len()
    &&& ins.len() == 1 ==> i >= 1 && deps[0] == tasks[i - 1].task_id && nodes[i - 1] == ins[0]
    &&& ins.len() == 2 ==> {
        let m = post_order(ins[1]).len() as int;
        &&& i - 1 - m >= 0
        &&& deps[0] == tasks[i - 1 - m].task_id
        &&& nodes[i - 1 - m] == ins[0]
        &&& deps[1] == tasks[i - 1].task_id
        &&& nodes[i - 1] == ins[1]
    }
}

/// The root comes last.
proof fn root_is_last(node: PhysicalNode)
    ensures
        post_order(node).len() > 0,
        post_order(node).last() == node,
{
}

/// Dependencies follow the plan: each task depends on exactly the tasks of the
/// nodes that go into its node, left before right.
#[verifier::rlimit(40)]
pub proof fn tasks_depend_on_inputs(node: PhysicalNode, tasks: Seq<ProvingTask>, i: int)
    requires
        plan_tasks(node, tasks),
        0 <= i < tasks.len(),
    ensures
        tasks.len() == post_order(node).len(),
        depends_on_inputs(post_order(node), tasks, i),
    decreases node,
{
    let n = tasks.len() as int;
    let nodes = post_order(node);
    let input = single_input(node);
    tasks_carry_their_nodes(node, tasks);
    if node is HashJoin {
        let left = *node->HashJoin_left;
        let right = *node->HashJoin_right;
        let k = node_count(left) as int;
        let a = tasks.take(k);
        let b = tasks.subrange(k, n - 1);
        tasks_carry_their_nodes(left, a);
        tasks_carry_their_nodes(right, b);
        root_is_last(left);
        root_is_last(right);
        if i < k {
            tasks_depend_on_inputs(left, a, i);
            let m = post_order(inputs_of(nodes[i])[1]).len() as int;
            assert(nodes[i] == post_order(left)[i]);
            assert(a[i] == tasks[i]);
            if inputs_of(nodes[i]).len() == 1 {
                assert(a[i - 1] == tasks[i - 1]);
            } else if inputs_of(nodes[i]).len() == 2 {
                assert(a[i - 1] == tasks[i - 1]);
                assert(a[i - 1 - m] == tasks[i - 1 - m]);
            }
        } else if i < n - 1 {
            let j = i - k;
            tasks_depend_on_inputs(right, b, j);
            let m = post_order(inputs_of(nodes[i])[1]).len() as int;
            assert(nodes[i] == post_order(right)[j]);
            assert(b[j] == tasks[i]);
            if inputs_of(nodes[i]).len() == 1 {
                assert(b[j - 1] == tasks[i - 1]);
                assert(nodes[i - 1] == post_order(right)[j - 1]);
            } else if inputs_of(nodes[i]).len() == 2 {
                assert(b[j - 1] == tasks[i - 1]);
                assert(b[j - 1 - m] == tasks[i - 1 - m]);
                assert(nodes[i - 1] == post_order(right)[j - 1]);
                assert(nodes[i - 1 - m] == post_order(right)[j - 1 - m]);
            }
        } else {
            assert(inputs_of(node)[1] == right);
            assert(nodes[n - 2] == right);
            assert(nodes[k - 1] == left);
        }
    } else if input is Some {
        let t = tasks.drop_last();
        let below = post_order(input->0);
        tasks_carry_their_nodes(input->0, t);
        root_is_last(input->0);
        if i < n - 1 {
            tasks_depend_on_inputs(input->0, t, i);
            let m = post_order(inputs_of(nodes[i])[1]).len() as int;
            assert(nodes[i] == below[i]);
            assert(t[i] == tasks[i]);
            if inputs_of(nodes[i]).len() == 1 {
                assert(t[i - 1] == tasks[i - 1]);
                assert(nodes[i - 1] == below[i - 1]);
            } else if inputs_of(nodes[i]).len() == 2 {
                assert(t[i - 1] == tasks[i - 1]);
                assert(t[i - 1 - m] == tasks[i - 1 - m]);
                assert(nodes[i - 1] == below[i - 1]);
                assert(nodes[i - 1 - m] == below[i - 1 - m]);
            }
        } else {
            assert(plan_above(tasks));
            assert(nodes[n - 2] == input->0);
        }
    }
}

/// Two optional expressions are both there or both missing, and say the same.
pub open spec fn same_expression(
    a: Option<crate::query::ast::Expr>,
    b: Option<crate::query::ast::Expr>,
) -> bool {
    &&& a is Some <==> b is Some
    &&& a is Some ==> a->0.json@ == b->0.json@
}

/// Two lists have the same JSON text.
pub open spec fn same_list(a: Seq<Seq<char>>, b: Seq<Seq<char>>) -> bool {
    exists|t: Seq<char>| #[trigger] lists(t, a) && lists(t, b)
}

/// Lists with the same JSON text and as many items, each as long as its
/// counterpart, are the same.
pub proof fn same_list_same_items(a: Seq<Seq<char>>, b: Seq<Seq<char>>)
    requires
        same_list(a, b),
        a.len() == b.len(),
        forall|i: int| 0 <= i < a.len() ==> (#[trigger] a[i]).len() == b[i].len(),
    ensures
        a == b,
{
    let t = choose|t: Seq<char>| #[trigger] lists(t, a) && lists(t, b);
    assert forall|i: int| 0 <= i < a.len() implies a[i] == b[i] by {
        same_offsets(a, b, i);
        assert(t.subrange(item_offset(a, i), item_offset(a, i) + a[i].len()) == a[i]);
        assert(t.subrange(item_offset(b, i), item_offset(b, i) + b[i].len()) == b[i]);
    }
    assert(a =~= b);
}

proof fn same_offsets(a: Seq<Seq<char>>, b: Seq<Seq<char>>, i: int)
    requires
        0 <= i < a.len(),
        a.len() == b.len(),
        forall|j: int| 0 <= j < a.len() ==> (#[trigger] a[j]).len() == b[j].len(),
    ensures
        item_offset(a, i) == item_offset(b, i),
    decreases i,
{
    if i > 0 {
        same_offsets(a, b, i - 1);
        assert(a[i - 1].len() == b[i - 1].len());
    }
}

/// Two nodes are of one kind and carry the same, lists by their JSON texts.
pub open spec fn alike(a: PhysicalNode, b: PhysicalNode) -> bool {
    match a {
        PhysicalNode::ChunkedScan { chunk_indices, columns, .. } => {
            &&& b is ChunkedScan
            &&& b->chunk_indices@ == chunk_indices@
            &&& b->columns is Some <==> columns is Some
            &&& columns is Some ==> b->columns->0@.len() == columns->0@.len()
            &&& columns is Some ==> forall|i: int|
                0 <= i < columns->0@.len() ==> (#[trigger] columns->0@[i])@ == b->columns->0@[i]@
        },
        PhysicalNode::Filter { predicate, .. } => {
            b is Filter && b->predicate.json@ == predicate.json@
        },
        PhysicalNode::Projection { items, .. } => {
            &&& b is Projection
            &&& same_list(
                Seq::new(items@.len(), |i: int| items@[i].json@),
                Seq::new(b->items@.len(), |i: int| b->items@[i].json@),
            )
        },
        PhysicalNode::PartialAggregate { group_by, aggregates, .. } => {
            &&& b is PartialAggregate
            &&& same_list(
                Seq::new(group_by@.len(), |i: int| group_by@[i].json@),
                Seq::new(b->PartialAggregate_group_by@.len(), |i: int| b->PartialAggregate_group_by@[i].json@),
            )
            &&& same_list(
                Seq::new(aggregates@.len(), |i: int| aggregates@[i].json@),
                Seq::new(b->PartialAggregate_aggregates@.len(), |i: int| b->PartialAggregate_aggregates@[i].json@),
            )
        },
        PhysicalNode::MergeAggregate { group_by, aggregates, having, .. } => {
            &&& b is MergeAggregate
            &&& same_list(
                Seq::new(group_by@.len(), |i: int| group_by@[i].json@),
                Seq::new(b->MergeAggregate_group_by@.len(), |i: int| b->MergeAggregate_group_by@[i].json@),
            )
            &&& same_list(
                Seq::new(aggregates@.len(), |i: int| aggregates@[i].json@),
                Seq::new(b->MergeAggregate_aggregates@.len(), |i: int| b->MergeAggregate_aggregates@[i].json@),
            )
            &&& same_expression(having, b->having)
        },
        PhysicalNode::Sort { keys, .. } => {
            &&& b is Sort
            &&& same_list(
                Seq::new(keys@.len(), |i: int| keys@[i].json@),
                Seq::new(b->keys@.len(), |i: int| b->keys@[i].json@),
            )
        },
        PhysicalNode::Limit { n, offset, .. } => b is Limit && b->n == n && b->offset == offset,
        PhysicalNode::HashJoin { kind, condition, .. } => {
            b is HashJoin && b->kind.json@ == kind.json@ && same_expression(condition, b->condition)
        },
    }
}

/// Different plans have different tasks: two plans with the same tasks have the
/// same nodes, in the same order, carrying the same. A join with a condition and
/// one without, or with another one, never give the same task.
#[verifier::rlimit(40)]
pub proof fn same_tasks_mean_same_nodes(
    a: PhysicalNode,
    b: PhysicalNode,
    tasks: Seq<ProvingTask>,
    i: int,
)
    requires
        plan_tasks(a, tasks),
        plan_tasks(b, tasks),
        0 <= i < tasks.len(),
    ensures
        post_order(a).len() == post_order(b).len(),
        alike(post_order(a)[i], post_order(b)[i]),
{
    tasks_carry_their_nodes(a, tasks);
    tasks_carry_their_nodes(b, tasks);
    assert(carries(post_order(a)[i], tasks[i].operator));
    assert(carries(post_order(b)[i], tasks[i].operator));
    match post_order(a)[i] {
        PhysicalNode::ChunkedScan { columns, .. } => {
            if columns is Some {
                let op = tasks[i].operator;
                let other = post_order(b)[i]->columns->0@;
                assert forall|k: int| 0 <= k < columns->0@.len() implies (#[trigger] columns->0@[k])@
                    == other[k]@ by {
                    assert(op->column_names->0@[k]@ == columns->0@[k]@);
                    assert(op->column_names->0@[k]@ == other[k]@);
                }
            }
        },
        PhysicalNode::Projection { items, .. } => {
            let x = Seq::new(items@.len(), |k: int| items@[k].json@);
            assert(lists(tasks[i].operator->items_json@, x));
        },
        PhysicalNode::PartialAggregate { group_by, aggregates, .. } => {
            let x = Seq::new(group_by@.len(), |k: int| group_by@[k].json@);
            let y = Seq::new(aggregates@.len(), |k: int| aggregates@[k].json@);
            assert(lists(tasks[i].operator->PartialAggregate_group_by_json@, x));
            assert(lists(tasks[i].operator->PartialAggregate_aggregates_json@, y));
        },
        PhysicalNode::MergeAggregate { group_by, aggregates, .. } => {
            let x = Seq::new(group_by@.len(), |k: int| group_by@[k].json@);
            let y = Seq::new(aggregates@.len(), |k: int| aggregates@[k].json@);
            assert(lists(tasks[i].operator->MergeAggregate_group_by_json@, x));
            assert(lists(tasks[i].operator->MergeAggregate_aggregates_json@, y));
        },
        PhysicalNode::Sort { keys, .. } => {
            let x = Seq::new(keys@.len(), |k: int| keys@[k].json@);
            assert(lists(tasks[i].operator->keys_json@, x));
        },
        _ => {},
    }
}

/// The root task of a plan is the first with the root's identifier; where no task
/// has it, the last.
pub proof fn root_task_is_found(tasks: Seq<ProvingTask>, id: TaskId)
    requires
        tasks.len() > 0,
    ensures
        0 <= root_index(tasks, id) < tasks.len(),
        forall|i: int|
            0 <= i < tasks.len() && (#[trigger] tasks[i]).task_id == id ==> root_index(tasks, id)
                <= i && tasks[root_index(tasks, id)].task_id == id,
        (forall|i: int| 0 <= i < tasks.len() ==> (#[trigger] tasks[i]).task_id != id)
            ==> root_index(tasks, id) == tasks.len() - 1,
{
    first_is_least(tasks, id, 0);
}

proof fn first_is_least(tasks: Seq<ProvingTask>, id: TaskId, i: int)
    requires
        0 <= i <= tasks.len(),
    ensures
        i <= first_with(tasks, id, i) <= tasks.len(),
        forall|j: int|
            i <= j < tasks.len() && (#[trigger] tasks[j]).task_id == id ==> first_with(tasks, id, i)
                <= j,
        first_with(tasks, id, i) < tasks.len() ==> tasks[first_with(tasks, id, i)].task_id == id,
    decreases tasks.len() - i,
{
    if i < tasks.len() && tasks[i].task_id != id {
        first_is_least(tasks, id, i + 1);
    }
}

/// A text names keys: it is not an empty list, and holds something that is not
/// white space.
pub open spec fn names_keys(text: Seq<char>) -> bool {
    &&& text != seq!['[', ']']
    &&& exists|i: int| 0 <= i < text.len() && !is_space(#[trigger] text[i])
}

/// An operator groups: it is an aggregate whose text names keys.
pub open spec fn groups(op: ProofOperator) -> bool {
    match op {
        ProofOperator::PartialAggregate { group_by_json, .. } => names_keys(group_by_json@),
        ProofOperator::MergeAggregate { group_by_json, .. } => names_keys(group_by_json@),
        _ => false,
    }
}

/// A grouping has keys exactly where its text names some.
pub proof fn texts_name_keys(text: Seq<char>)
    ensures
        has_keys(text) <==> names_keys(text),
{
    reveal_strlit("[]");
    assert("[]"@ =~= seq!['[', ']']);
}

/// A list of keys names keys exactly where it is not empty.
pub proof fn keys_are_seen(text: Seq<char>, items: Seq<Seq<char>>)
    requires
        lists(text, items),
        forall|i: int| 0 <= i < items.len() ==> (#[trigger] items[i]).len() > 0,
    ensures
        names_keys(text) <==> items.len() > 0,
        has_keys(text) <==> items.len() > 0,
{
    texts_name_keys(text);
    if items.len() == 0 {
        assert(text =~= seq!['[', ']']);
    } else {
        assert(items[0].len() > 0);
        offsets_rise(items, 0, items.len() as int);
        assert(text.len() > 2);
        assert(!is_space('['));
        assert(text[0] == '[');
    }
}

/// A plan has the tasks of its nodes, ends in the root, counts every chunk of
/// every scan as a leaf proof, and carries the given identifiers and snapshot
/// root.
pub proof fn plans_are_whole(
    physical: PhysicalPlan,
    snapshot_root: CommitmentRoot,
    query_id: QueryId,
    p: ProofPlan,
    i: int,
)
    requires
        planned(physical, snapshot_root, query_id, p),
        0 <= i < p.topology.tasks@.len(),
    ensures
        p.topology.tasks@.len() == post_order(physical.root).len(),
        carries(post_order(physical.root)[i], p.topology.tasks@[i].operator),
        depends_on_inputs(post_order(physical.root), p.topology.tasks@, i),
        p.topology.root_task_id == p.topology.tasks@[p.topology.tasks@.len() - 1].task_id,
        chunks_read(post_order(physical.root)) < 0x1_0000_0000 ==> p.leaf_count == chunks_read(
            post_order(physical.root),
        ),
        p.query_id == query_id,
        p.snapshot_id == physical.snapshot_id,
        p.dataset_id == physical.dataset_id,
        p.snapshot_root == snapshot_root,
        p.poseidon_snap_lo == 0,
        !p.operator_params.sort_descending,
        p.operator_params.limit == 0,
        p.schema_json is None,
{
    let tasks = p.topology.tasks@;
    tasks_carry_their_nodes(physical.root, tasks);
    tasks_depend_on_inputs(physical.root, tasks, i);
    leaf_proofs_are_chunks(physical.root);
    assert(carries(post_order(physical.root)[i], tasks[i].operator));
}

/// The number of chunks that the scans among nodes read.
pub open spec fn chunks_read(nodes: Seq<PhysicalNode>) -> nat
    decreases nodes.len(),
{
    if nodes.len() == 0 {
        0
    } else {
        chunks_read(nodes.drop_last()) + match nodes.last() {
            PhysicalNode::ChunkedScan { chunk_indices, .. } => chunk_indices@.len(),
            _ => 0,
        }
    }
}

proof fn chunks_read_concat(a: Seq<PhysicalNode>, b: Seq<PhysicalNode>)
    ensures
        chunks_read(a + b) == chunks_read(a) + chunks_read(b),
    decreases b.len(),
{
    if b.len() == 0 {
        assert(a + b =~= a);
    } else {
        assert((a + b).drop_last() =~= a + b.drop_last());
        chunks_read_concat(a, b.drop_last());
    }
}

/// Every chunk of every scan is a leaf proof.
pub proof fn leaf_proofs_are_chunks(node: PhysicalNode)
    ensures
        chunk_total(node) == chunks_read(post_order(node)),
    decreases node,
{
    let nodes = post_order(node);
    assert(nodes.last() == node);
    match node {
        PhysicalNode::ChunkedScan { .. } => {
            assert(nodes.drop_last() =~= Seq::<PhysicalNode>::empty());
            assert(chunks_read(nodes.drop_last()) == 0);
        },
        PhysicalNode::Filter { input, .. } => {
            leaf_proofs_are_chunks(*input);
            assert(nodes.drop_last() =~= post_order(*input));
        },
        PhysicalNode::Projection { input, .. } => {
            leaf_proofs_are_chunks(*input);
            assert(nodes.drop_last() =~= post_order(*input));
        },
        PhysicalNode::PartialAggregate { input, .. } => {
            leaf_proofs_are_chunks(*input);
            assert(nodes.drop_last() =~= post_order(*input));
        },
        PhysicalNode::MergeAggregate { input, .. } => {
            leaf_proofs_are_chunks(*input);
            assert(nodes.drop_last() =~= post_order(*input));
        },
        PhysicalNode::Sort { input, .. } => {
            leaf_proofs_are_chunks(*input);
            assert(nodes.drop_last() =~= post_order(*input));
        },
        PhysicalNode::Limit { input, .. } => {
            leaf_proofs_are_chunks(*input);
            assert(nodes.drop_last() =~= post_order(*input));
        },
        PhysicalNode::HashJoin { left, right, .. } => {
            leaf_proofs_are_chunks(*left);
            leaf_proofs_are_chunks(*right);
            chunks_read_concat(post_order(*left), post_order(*right));
            assert(nodes.drop_last() =~= post_order(*left) + post_order(*right));
        },
    }
}

/// The steps of a logical plan, inputs before the node itself, left before right.
/// An aggregate is two steps: over the chunks, and then over their results.
pub open spec fn steps(l: LogicalNode) -> Seq<(LogicalNode, bool)>
    decreases l,
{
    match l {
        LogicalNode::TableScan { .. } => seq![(l, false)],
        LogicalNode::Filter { input, .. } => steps(*input).push((l, false)),
        LogicalNode::Projection { input, .. } => steps(*input).push((l, false)),
        LogicalNode::Aggregate { input, .. } => steps(*input).push((l, false)).push((l, true)),
        LogicalNode::Sort { input, .. } => steps(*input).push((l, false)),
        LogicalNode::Limit { input, .. } => steps(*input).push((l, false)),
        LogicalNode::Join { left, right, .. } => (steps(*left) + steps(*right)).push((l, false)),
    }
}

/// A physical node does a logical step: it carries the same, and a scan reads all
/// chunks in order.
pub open spec fn does_step(s: (LogicalNode, bool), p: PhysicalNode, chunks: Seq<u32>) -> bool {
    match s.0 {
        LogicalNode::TableScan { dataset_id, snapshot_id, columns } => {
            &&& p is ChunkedScan
            &&& p->dataset_id == dataset_id
            &&& p->snapshot_id == snapshot_id
            &&& p->chunk_indices@ == chunks
            &&& p->columns == columns
        },
        LogicalNode::Filter { predicate, .. } => p is Filter && p->predicate == predicate,
        LogicalNode::Projection { items, .. } => p is Projection && p->items == items,
        LogicalNode::Aggregate { group_by, aggregates, having, .. } => if s.1 {
            &&& p is MergeAggregate
            &&& p->MergeAggregate_group_by@ == group_by@
            &&& p->MergeAggregate_aggregates@ == aggregates@
            &&& p->having == having
        } else {
            &&& p is PartialAggregate
            &&& p->PartialAggregate_group_by@ == group_by@
            &&& p->PartialAggregate_aggregates@ == aggregates@
        },
        LogicalNode::Sort { keys, .. } => p is Sort && p->keys == keys,
        LogicalNode::Limit { n, offset, .. } => p is Limit && p->n == n && p->offset == offset,
        LogicalNode::Join { kind, condition, .. } => {
            p is HashJoin && p->kind == kind && p->condition == condition
        },
    }
}

/// The physical plan does every step of the logical plan, in order, and nothing
/// else: no predicate, key, item, aggregate, limit or condition is lost, and the
/// sides of a join stay where they are.
#[verifier::rlimit(40)]
pub proof fn every_step_is_done(l: LogicalNode, p: PhysicalNode, chunks: Seq<u32>)
    requires
        translates(l, p, chunks),
    ensures
        post_order(p).len() == steps(l).len(),
        forall|i: int|
            0 <= i < steps(l).len() ==> does_step(#[trigger] steps(l)[i], post_order(p)[i], chunks),
    decreases l,
{
    let s = steps(l);
    let q = post_order(p);
    match l {
        LogicalNode::TableScan { .. } => {
            assert(p is ChunkedScan);
            assert(q == seq![p]);
            assert(s == seq![(l, false)]);
        },
        LogicalNode::Filter { input, .. } => {
            step_on_top(l, *input, p, *p->Filter_input, chunks);
        },
        LogicalNode::Projection { input, .. } => {
            step_on_top(l, *input, p, *p->Projection_input, chunks);
        },
        LogicalNode::Aggregate { input, .. } => {
            let partial = *p->MergeAggregate_input;
            let below = *partial->PartialAggregate_input;
            every_step_is_done(*input, below, chunks);
            let a = steps(*input);
            let b = post_order(below);
            assert(post_order(partial) == b.push(partial));
            assert(q == b.push(partial).push(p));
            assert forall|i: int| 0 <= i < s.len() implies does_step(#[trigger] s[i], q[i], chunks) by {
                if i < a.len() {
                    assert(does_step(a[i], b[i], chunks));
                }
            }
        },
        LogicalNode::Sort { input, .. } => {
            step_on_top(l, *input, p, *p->Sort_input, chunks);
        },
        LogicalNode::Limit { input, .. } => {
            step_on_top(l, *input, p, *p->Limit_input, chunks);
        },
        LogicalNode::Join { left, right, .. } => {
            let x = *p->HashJoin_left;
            let y = *p->HashJoin_right;
            every_step_is_done(*left, x, chunks);
            every_step_is_done(*right, y, chunks);
            let k = steps(*left).len() as int;
            assert forall|i: int| 0 <= i < s.len() implies does_step(#[trigger] s[i], q[i], chunks) by {
                if i < k {
                    assert(does_step(steps(*left)[i], post_order(x)[i], chunks));
                } else if i < s.len() - 1 {
                    assert(does_step(steps(*right)[i - k], post_order(y)[i - k], chunks));
                }
            }
        },
    }
}

/// One more step on top of one input.
proof fn step_on_top(
    l: LogicalNode,
    input: LogicalNode,
    p: PhysicalNode,
    below: PhysicalNode,
    chunks: Seq<u32>,
)
    requires
        decreases_to!(l => input),
        translates(input, below, chunks),
        steps(l) == steps(input).push((l, false)),
        post_order(p) == post_order(below).push(p),
        does_step((l, false), p, chunks),
    ensures
        post_order(p).len() == steps(l).len(),
        forall|i: int|
            0 <= i < steps(l).len() ==> does_step(#[trigger] steps(l)[i], post_order(p)[i], chunks),
    decreases l, 0int,
{
    every_step_is_done(input, below, chunks);
    assert forall|i: int| 0 <= i < steps(l).len() implies does_step(
        #[trigger] steps(l)[i],
        post_order(p)[i],
        chunks,
    ) by {
        if i < steps(input).len() {
            assert(does_step(steps(input)[i], post_order(below)[i], chunks));
        }
    }
}

/// A physical plan does every step of its logical plan over all chunks of the
/// manifest, and keeps its identifiers and the manifest's row count.
pub proof fn physical_plans_are_whole(
    logical: LogicalPlan,
    manifest: SnapshotManifest,
    p: PhysicalPlan,
    i: int,
)
    requires
        assigned(logical, manifest, p),
        0 <= i < steps(logical.root).len(),
    ensures
        post_order(p.root).len() == steps(logical.root).len(),
        does_step(
            steps(logical.root)[i],
            post_order(p.root)[i],
            Seq::new(manifest.chunks@.len(), |k: int| manifest.chunks@[k].chunk_index),
        ),
        p.snapshot_id == logical.snapshot_id,
        p.dataset_id == logical.dataset_id,
        manifest.chunks@.len() < 0x1_0000_0000 ==> p.chunk_count == manifest.chunks@.len(),
        p.estimated_row_count == manifest.row_count,
{
    let chunks = Seq::new(manifest.chunks@.len(), |k: int| manifest.chunks@[k].chunk_index);
    assert(crate::query::physical_plan::manifest_chunks(manifest.chunks@) =~= chunks);
    every_step_is_done(logical.root, p.root, chunks);
    assert(does_step(steps(logical.root)[i], post_order(p.root)[i], chunks));
}

/// Nodes are told apart by their names.
pub proof fn node_names(p: PhysicalNode)
    ensures
        p.name()@ == "ChunkedScan"@ <==> p is ChunkedScan,
        p.name()@ == "Filter"@ <==> p is Filter,
        p.name()@ == "Projection"@ <==> p is Projection,
        p.name()@ == "PartialAggregate"@ <==> p is PartialAggregate,
        p.name()@ == "MergeAggregate"@ <==> p is MergeAggregate,
        p.name()@ == "Sort"@ <==> p is Sort,
        p.name()@ == "Limit"@ <==> p is Limit,
        p.name()@ == "HashJoin"@ <==> p is HashJoin,
{
    reveal_strlit("ChunkedScan");
    reveal_strlit("Filter");
    reveal_strlit("Projection");
    reveal_strlit("PartialAggregate");
    reveal_strlit("MergeAggregate");
    reveal_strlit("Sort");
    reveal_strlit("Limit");
    reveal_strlit("HashJoin");
    assert("ChunkedScan"@[0] == 'C');
    assert("Filter"@[0] == 'F');
    assert("Projection"@[1] == 'r');
    assert("PartialAggregate"@[0] == 'P' && "PartialAggregate"@[1] == 'a');
    assert("Projection"@[0] == 'P');
    assert("MergeAggregate"@[0] == 'M');
    assert("Sort"@[0] == 'S');
    assert("Limit"@[0] == 'L');
    assert("HashJoin"@[0] == 'H');
}

} // verus!
