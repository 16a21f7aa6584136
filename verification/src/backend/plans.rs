//! Which plans are proved, by which circuit, and what a request to prove is
//! answered.

use vstd::prelude::*;
use vstd::utf8::encode_utf8;

use crate::backend::classify::aggregate_kind;
use crate::backend::classify::extra_keys;
use crate::backend::classify::first_extra_keys;
use crate::backend::classify::limits;
use crate::backend::classify::merges;
use crate::backend::classify::operator_kind;
use crate::backend::classify::own_circuits;
use crate::backend::classify::partials;
use crate::backend::classify::plan_kind;
use crate::backend::classify::provable_operators;
use crate::backend::classify::task_extra_keys;
use crate::backend::classify::unsupported;
use crate::backend::classify::OpKind;
use crate::backend::outcomes::count_over;
use crate::backend::outcomes::leading_word;
use crate::backend::outcomes::root_word;
use crate::backend::plonky2::answered;
use crate::backend::plonky2::compiled;
use crate::backend::plonky2::witness_accepted;
use crate::backend::plonky2::witness_statement;
use crate::backend::plonky2::Plonky2CircuitHandle;
use crate::backend::plonky2::PlonkyCircuit;
use crate::circuit::inputs::CircuitWitness;
use crate::circuit::system::FieldHash;
use crate::circuit::witness::root_op;
use crate::circuit::witness::WitnessTrace;
use crate::outside::blake3_digest;
use crate::outside::json_array_len;
use crate::query::laws::groups;
use crate::query::laws::names_keys;
use crate::query::laws::root_task_is_found;
use crate::query::laws::texts_name_keys;
use crate::query::proof_plan::ProofOperator;
use crate::query::proof_plan::ProofPlan;
use crate::query::proof_plan::ProvingTask;
use crate::text::decimal;
use crate::text::lower;
use crate::text::matches_at;
use crate::text::mentions;
use crate::types::ZkResult;

verus! {

/// The code of a character, with capital ASCII letters taken as small ones.
pub open spec fn folded(c: char) -> int {
    if 65 <= c as int <= 90 {
        c as int + 32
    } else {
        c as int
    }
}

/// A word stands at position `at` of a text, in capital or small letters.
pub open spec fn stands_at(text: Seq<char>, word: Seq<char>, at: int) -> bool {
    &&& 0 <= at <= text.len() - word.len()
    &&& forall|k: int| 0 <= k < word.len() ==> folded(#[trigger] text[at + k]) == word[k] as int
}

/// A word occurs in a text, in capital or small letters.
pub open spec fn occurs(text: Seq<char>, word: Seq<char>) -> bool {
    exists|at: int| #[trigger] stands_at(text, word, at)
}

proof fn lower_folds(c: char)
    ensures
        lower(c) as int == folded(c),
{
    if 65 <= c as int <= 90 {
        let b: u8 = c as u8;
        assert(b as int == c as int);
    }
}

/// A text mentions a word exactly where the word occurs in it.
pub proof fn mentioned_where_it_occurs(text: Seq<char>, word: Seq<char>)
    ensures
        mentions(text, word) <==> occurs(text, word),
{
    assert forall|at: int| #[trigger] matches_at(text, word, at) == stands_at(text, word, at) by {
        assert forall|k: int| 0 <= k < word.len() implies (lower(#[trigger] text[at + k]) == word[k])
            == (folded(text[at + k]) == word[k] as int) by {
            lower_folds(text[at + k]);
        }
    }
    if mentions(text, word) {
        let at = choose|at: int| #[trigger] matches_at(text, word, at);
        assert(stands_at(text, word, at));
    }
    if occurs(text, word) {
        let at = choose|at: int| #[trigger] stands_at(text, word, at);
        assert(matches_at(text, word, at));
    }
}

/// The kind of an aggregate: a grouping where its text names keys;
/// otherwise an average, a sum or a count, as the aggregates say in this order.
pub proof fn aggregates_are_told_apart(
    group_by: Seq<char>,
    aggregates: Seq<char>,
)
    ensures
        ({
            let avg = seq!['"', 'a', 'v', 'g', '"'];
            let sum = seq!['"', 's', 'u', 'm', '"'];
            let k = aggregate_kind(group_by, aggregates);
            &&& k is GroupBy <==> names_keys(group_by)
            &&& k is Avg <==> !names_keys(group_by) && occurs(aggregates, avg)
            &&& k is Sum <==> !names_keys(group_by) && !occurs(aggregates, avg) && occurs(aggregates, sum)
            &&& k is Count <==> !names_keys(group_by) && !occurs(aggregates, avg) && !occurs(
                aggregates,
                sum,
            )
        }),
{
    let avg = seq!['"', 'a', 'v', 'g', '"'];
    let sum = seq!['"', 's', 'u', 'm', '"'];
    reveal_strlit("\"avg\"");
    reveal_strlit("\"sum\"");
    assert("\"avg\""@ =~= avg);
    assert("\"sum\""@ =~= sum);
    texts_name_keys(group_by);
    mentioned_where_it_occurs(aggregates, avg);
    mentioned_where_it_occurs(aggregates, sum);
}

/// Each operator is proved as what it is: a join as a join, a sort as a sort, an
/// aggregate by its lists, and every other operator as a plain scan of rows.
pub proof fn operators_are_told_apart(op: ProofOperator)
    ensures
        operator_kind(op) is Join <==> op is HashJoin,
        operator_kind(op) is Sort <==> op is Sort,
        !(operator_kind(op) is DescSort),
        op matches ProofOperator::PartialAggregate { group_by_json, aggregates_json }
            ==> operator_kind(op) == aggregate_kind(group_by_json@, aggregates_json@),
        op matches ProofOperator::MergeAggregate { group_by_json, aggregates_json, .. }
            ==> operator_kind(op) == aggregate_kind(group_by_json@, aggregates_json@),
        operator_kind(op) is Generic <==> op is Scan || op is Filter || op is Projection
            || op is Limit || op is RecursiveFold,
{
}

/// Circuits have different tags, and the kinds that are aggregates over all rows
/// share one.
pub proof fn tags_are_told_apart(k: OpKind)
    ensures
        k.tag() == 1 <==> k is Sort,
        k.tag() == 2 <==> k is GroupBy,
        k.tag() == 3 <==> k is Join,
        k.tag() == 4 <==> k is DescSort,
        k.tag() == 0 <==> k is Count || k is Sum || k is Avg || k is Generic,
{
}

/// The kind of a plan is that of its root operator, where a sort is descending
/// exactly if the plan says so. A plan without tasks is of the generic kind.
pub proof fn plans_are_told_apart(plan: ProofPlan, i: int)
    ensures
        plan.topology.tasks@.len() == 0 ==> plan_kind(plan) is Generic,
        ({
            let tasks = plan.topology.tasks@;
            let op = tasks[i].operator;
            let only = 0 <= i < tasks.len() && tasks[i].task_id == plan.topology.root_task_id
                && forall|j: int|
                0 <= j < tasks.len() && (#[trigger] tasks[j]).task_id == plan.topology.root_task_id
                    ==> j == i;
            only ==> {
                &&& plan_kind(plan) is DescSort <==> op is Sort
                    && plan.operator_params.sort_descending
                &&& plan_kind(plan) is Sort <==> op is Sort
                    && !plan.operator_params.sort_descending
                &&& !(op is Sort) ==> plan_kind(plan) == operator_kind(op)
            }
        }),
{
    let tasks = plan.topology.tasks@;
    if tasks.len() > 0 {
        root_task_is_found(tasks, plan.topology.root_task_id);
    }
}

/// The operator needs a circuit of its own.
pub open spec fn stands_alone(op: ProofOperator) -> bool {
    op is Sort || op is HashJoin || op is MergeAggregate
}

/// The number of proofs that a plan needs: one for each sort, join and merged
/// aggregate, and one for partial aggregates that nothing merges.
pub open spec fn proofs_needed(tasks: Seq<ProvingTask>) -> int {
    let n = tasks.len() as int;
    count_over(n, |i: int| stands_alone(tasks[i].operator)) + if (exists|i: int|
        0 <= i < n && (#[trigger] tasks[i]).operator is PartialAggregate) && (forall|i: int|
        0 <= i < n ==> !((#[trigger] tasks[i]).operator is MergeAggregate)) {
        1int
    } else {
        0int
    }
}

/// The task sorts by more than one key.
pub open spec fn sorts_by_many(task: ProvingTask) -> bool {
    match task.operator {
        ProofOperator::Sort { keys_json } => json_array_len(keys_json@) matches Some(n) && n > 1,
        _ => false,
    }
}

proof fn own_circuits_counted(tasks: Seq<ProvingTask>, n: int)
    ensures
        own_circuits(tasks, n) == count_over(n, |i: int| stands_alone(tasks[i].operator)),
    decreases n,
{
    if n > 0 {
        own_circuits_counted(tasks, n - 1);
    }
}

proof fn proofs_counted(tasks: Seq<ProvingTask>)
    ensures
        provable_operators(tasks) == proofs_needed(tasks),
{
    let n = tasks.len() as int;
    own_circuits_counted(tasks, n);
    assert(partials(tasks, n) == exists|i: int|
        0 <= i < n && (#[trigger] tasks[i]).operator is PartialAggregate);
    assert(merges(tasks, n) == !(forall|i: int|
        0 <= i < n ==> !((#[trigger] tasks[i]).operator is MergeAggregate)));
}

proof fn first_extra_keys_found(tasks: Seq<ProvingTask>, i: int)
    requires
        0 <= i <= tasks.len(),
    ensures
        first_extra_keys(tasks, i) is None <==> forall|j: int|
            i <= j < tasks.len() ==> !sorts_by_many(#[trigger] tasks[j]),
    decreases tasks.len() - i,
{
    if i < tasks.len() {
        first_extra_keys_found(tasks, i + 1);
        assert(task_extra_keys(tasks[i]) is Some <==> sorts_by_many(tasks[i]));
    }
}

/// A plan can be proved exactly if it needs at most one proof, limits no rows, and
/// sorts by at most one key.
pub proof fn provable_plans(tasks: Seq<ProvingTask>)
    ensures
        unsupported(tasks) is None <==> {
            &&& proofs_needed(tasks) <= 1
            &&& forall|i: int|
                0 <= i < tasks.len() ==> !((#[trigger] tasks[i]).operator is Limit)
            &&& forall|i: int| 0 <= i < tasks.len() ==> !sorts_by_many(#[trigger] tasks[i])
        },
{
    proofs_counted(tasks);
    first_extra_keys_found(tasks, 0);
    assert(limits(tasks) == !(forall|i: int|
        0 <= i < tasks.len() ==> !((#[trigger] tasks[i]).operator is Limit)));
}

/// `s` starts with `t`.
pub open spec fn starts_with(s: Seq<char>, t: Seq<char>) -> bool {
    t.len() <= s.len() && s.subrange(0, t.len() as int) == t
}

/// A refusal says which of the three it is, the first that applies, and the number
/// of proofs or keys.
pub proof fn refusals_say_why(tasks: Seq<ProvingTask>, n: usize)
    ensures
        proofs_needed(tasks) > 1 ==> (unsupported(tasks) matches Some(m) && starts_with(
            m,
            "UNSUPPORTED: multi-operator composed proof plans are not yet implemented. Found "@
                + decimal(proofs_needed(tasks) as nat) + " independently-provable operators."@,
        )),
        proofs_needed(tasks) <= 1 && (exists|i: int|
            0 <= i < tasks.len() && (#[trigger] tasks[i]).operator is Limit) ==> (unsupported(
            tasks,
        ) matches Some(m) && starts_with(
            m,
            "UNSUPPORTED: LIMIT/TOP-K is not yet provable in Plonky2."@,
        )),
        n > 1 ==> (extra_keys(Some(n)) matches Some(m) && starts_with(
            m,
            "UNSUPPORTED: multi-column ORDER BY is not yet provable. keys_json has "@ + decimal(
                n as nat,
            ) + " sort keys;"@,
        )),
        n <= 1 ==> extra_keys(Some(n)) is None,
        extra_keys(None) is None,
{
    proofs_counted(tasks);
    if proofs_needed(tasks) > 1 {
        let m = unsupported(tasks)->0;
        let t = "UNSUPPORTED: multi-operator composed proof plans are not yet implemented. Found "@
            + decimal(proofs_needed(tasks) as nat) + " independently-provable operators."@;
        reveal_strlit(" independently-provable operators.");
        reveal_strlit(
            " independently-provable operators. Each query may contain at most ONE of: Sort, Aggregate, GroupBy, Join. Compose multi-operator queries only through future recursive folding.",
        );
        assert(m.subrange(0, t.len() as int) =~= t);
    } else if exists|i: int| 0 <= i < tasks.len() && (#[trigger] tasks[i]).operator is Limit {
        assert(limits(tasks));
        let m = unsupported(tasks)->0;
        let t = "UNSUPPORTED: LIMIT/TOP-K is not yet provable in Plonky2."@;
        reveal_strlit("UNSUPPORTED: LIMIT/TOP-K is not yet provable in Plonky2.");
        reveal_strlit(
            "UNSUPPORTED: LIMIT/TOP-K is not yet provable in Plonky2. The sorted output cardinality cannot be circuit-constrained without additional selector machinery. Remove LIMIT from the query or use ConstraintCheckedBackend for this query.",
        );
        assert(m.subrange(0, t.len() as int) =~= t);
    }
    if n > 1 {
        let m = extra_keys(Some(n))->0;
        let t = "UNSUPPORTED: multi-column ORDER BY is not yet provable. keys_json has "@ + decimal(
            n as nat,
        ) + " sort keys;"@;
        reveal_strlit(" sort keys;");
        reveal_strlit(
            " sort keys; single-column ORDER BY only. Remove extra sort keys or use ConstraintCheckedBackend.",
        );
        assert(m.subrange(0, t.len() as int) =~= t);
    }
}

/// Of a plan that is refused for its sort keys alone, the first sort with too many
/// is named.
pub proof fn first_sort_is_named(tasks: Seq<ProvingTask>, i: int)
    requires
        proofs_needed(tasks) <= 1,
        forall|j: int| 0 <= j < tasks.len() ==> !((#[trigger] tasks[j]).operator is Limit),
        0 <= i < tasks.len(),
        sorts_by_many(tasks[i]),
        forall|j: int| 0 <= j < i ==> !sorts_by_many(#[trigger] tasks[j]),
    ensures
        unsupported(tasks) == extra_keys(json_array_len(tasks[i].operator->keys_json@)),
{
    proofs_counted(tasks);
    assert(!limits(tasks));
    first_extra_keys_at(tasks, 0, i);
}

proof fn first_extra_keys_at(tasks: Seq<ProvingTask>, k: int, i: int)
    requires
        0 <= k <= i < tasks.len(),
        sorts_by_many(tasks[i]),
        forall|j: int| k <= j < i ==> !sorts_by_many(#[trigger] tasks[j]),
    ensures
        first_extra_keys(tasks, k) == extra_keys(json_array_len(tasks[i].operator->keys_json@)),
    decreases i - k,
{
    assert(task_extra_keys(tasks[k]) is Some <==> sorts_by_many(tasks[k]));
    if k < i {
        first_extra_keys_at(tasks, k + 1, i);
    }
}

/// A plan is compiled exactly if it can be proved, and to the circuit of its root
/// operator: an ascending or descending sort, a join, a grouping, or an aggregate
/// over all rows. The handle carries the plan's identifiers and the digest of its
/// text.
pub proof fn plans_are_compiled_to_their_circuit(
    plan: ProofPlan,
    plan_json: Seq<char>,
    r: ZkResult<Plonky2CircuitHandle>,
)
    requires
        compiled(plan, plan_json, r),
        plan.topology.tasks@.len() > 0,
    ensures
        r is Ok <==> {
            &&& proofs_needed(plan.topology.tasks@) <= 1
            &&& forall|i: int|
                0 <= i < plan.topology.tasks@.len() ==> !((
                #[trigger] plan.topology.tasks@[i]).operator is Limit)
            &&& forall|i: int|
                0 <= i < plan.topology.tasks@.len() ==> !sorts_by_many(
                    #[trigger] plan.topology.tasks@[i],
                )
        },
        r matches Err(e) ==> e is Proving && unsupported(plan.topology.tasks@) == Some(e.text()),
        r matches Ok(h) ==> {
            let op = root_op(plan);
            let descending = plan.operator_params.sort_descending;
            &&& h.wf()
            &&& h.circuit is Sort <==> op is Sort && !descending
            &&& h.circuit is DescSort <==> op is Sort && descending
            &&& h.circuit is Join <==> op is HashJoin
            &&& h.circuit is GroupBy <==> groups(op)
            &&& h.circuit is Agg <==> !(op is Sort) && !(op is HashJoin) && !groups(op)
            &&& h.plan_hash@ == blake3_digest(encode_utf8(plan_json))
            &&& h.query_id == plan.query_id
            &&& h.snapshot_id == plan.snapshot_id
            &&& h.dataset_id == plan.dataset_id
        },
{
    provable_plans(plan.topology.tasks@);
    let op = root_op(plan);
    match op {
        ProofOperator::PartialAggregate { group_by_json, aggregates_json } => {
            aggregates_are_told_apart(group_by_json@, aggregates_json@);
        },
        ProofOperator::MergeAggregate { group_by_json, aggregates_json, .. } => {
            aggregates_are_told_apart(group_by_json@, aggregates_json@);
        },
        _ => {},
    }
    operators_are_told_apart(op);
    tags_are_told_apart(plan_kind(plan));
}

/// A plan without tasks is compiled to the circuit of an aggregate over all rows.
pub proof fn empty_plans_are_compiled(
    plan: ProofPlan,
    plan_json: Seq<char>,
    r: ZkResult<Plonky2CircuitHandle>,
)
    requires
        compiled(plan, plan_json, r),
        plan.topology.tasks@.len() == 0,
    ensures
        r matches Ok(h) && h.circuit is Agg,
{
    provable_plans(plan.topology.tasks@);
    assert(count_over(0, |i: int| stands_alone(plan.topology.tasks@[i].operator)) == 0);
    tags_are_told_apart(plan_kind(plan));
}

/// A request to prove is answered with a proof exactly if the backend is no stub,
/// the root holds a commitment, and the circuit accepts the witness. What is
/// proved satisfies the circuit and exposes the statement of the witness. A
/// refusal says which of the three it is.
pub proof fn requests_are_answered(
    h: FieldHash,
    stub: bool,
    circuit: PlonkyCircuit,
    w: WitnessTrace,
    r: ZkResult<CircuitWitness>,
)
    requires
        answered(h, stub, circuit, w, r),
    ensures
        r is Ok <==> !stub && leading_word(w.snapshot_root@) != 0 && witness_accepted(
            h,
            circuit.spec_tag(),
            w,
        ),
        r matches Ok(p) ==> p.public_inputs@ == witness_statement(h, circuit.spec_tag(), w)
            && circuit.spec_system().satisfied(p.wires@, h),
        r matches Err(e) ==> e is Proving,
        r matches Err(e) ==> stub ==> e.text() == "Plonky2 stub: proving is not yet wired"@,
        r matches Err(e) ==> !stub && leading_word(w.snapshot_root@) == 0 ==> starts_with(
            e.text(),
            "snap_lo is zero"@,
        ),
        r matches Err(e) ==> !stub && leading_word(w.snapshot_root@) != 0 ==> {
            &&& circuit is Agg ==> e.text() == "agg prove: constraints not satisfied"@
            &&& circuit is Sort ==> e.text() == "sort prove: constraints not satisfied"@
            &&& circuit is DescSort ==> e.text() == "desc_sort prove: constraints not satisfied"@
            &&& circuit is GroupBy ==> e.text() == "group_by prove: constraints not satisfied"@
            &&& circuit is Join ==> e.text() == "join prove: constraints not satisfied"@
        },
        circuit.spec_tag() == 0 <==> circuit is Agg,
        circuit.spec_tag() == 1 <==> circuit is Sort,
        circuit.spec_tag() == 2 <==> circuit is GroupBy,
        circuit.spec_tag() == 3 <==> circuit is Join,
        circuit.spec_tag() == 4 <==> circuit is DescSort,
{
    root_word(w.snapshot_root@);
    reveal_strlit("snap_lo is zero");
    reveal_strlit(
        "snap_lo is zero: snapshot Poseidon commitment is missing or degenerate. WitnessBuilder::build() must be used to set witness.snapshot_root before calling prove().  A zero snap_lo produces a proof bound to no real dataset.",
    );
    if r is Err && !stub && leading_word(w.snapshot_root@) == 0 {
        assert(r->Err_0.text().subrange(0, "snap_lo is zero"@.len() as int)
            =~= "snap_lo is zero"@);
    }
}

} // verus!
