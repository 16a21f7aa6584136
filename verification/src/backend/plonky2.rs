//! The Plonky2 backend, but for the proof system itself: compiling plans to
//! circuits, assigning witnesses, sealing proofs into artifacts, and holding the
//! public inputs of a proof against what its artifact records.

use vstd::prelude::*;
use vstd::utf8::encode_utf8;

use crate::backend::classify::classify_plan_with_params;
use crate::backend::classify::find_unsupported;
use crate::backend::classify::plan_kind;
use crate::backend::classify::unsupported;
use crate::backend::classify::OpKind;
use crate::backend::classify::TAG_AGG;
use crate::backend::classify::TAG_DESC_SORT;
use crate::backend::classify::TAG_GROUP_BY;
use crate::backend::classify::TAG_JOIN;
use crate::backend::classify::TAG_SORT;
use crate::circuit::agg::agg_accepts;
use crate::circuit::agg::agg_statement;
use crate::circuit::agg::AggCircuit;
use crate::circuit::group_by::group_accepts;
use crate::circuit::group_by::group_statement;
use crate::circuit::group_by::GroupByCircuit;
use crate::circuit::inputs::CircuitWitness;
use crate::circuit::join::join_accepts;
use crate::circuit::join::join_statement;
use crate::circuit::join::JoinCircuit;
use crate::circuit::sort::sort_accepts;
use crate::circuit::sort::sort_statement;
use crate::circuit::sort::DescSortCircuit;
use crate::circuit::sort::SortCircuit;
use crate::circuit::sort::SortRows;
use crate::circuit::system::computes;
use crate::circuit::system::is_total;
use crate::circuit::system::ConstraintSystem;
use crate::circuit::system::FieldHash;
use crate::circuit::witness::ColumnTrace;
use crate::circuit::witness::WitnessTrace;
use crate::commitment::poseidon::commitment_lo;
use crate::commitment::poseidon::root_lo;
use crate::commitment::poseidon::words;
use crate::commitment::poseidon::MAX_ROWS;
use crate::outside::blake3_digest;
use crate::outside::blake3_hash;
use crate::query::proof_plan::ProofPlan;
use crate::types::BackendTag;
use crate::types::DatasetId;
use crate::types::QueryId;
use crate::types::SnapshotId;
use crate::types::ZkDbError;
use crate::types::ZkResult;

verus! {

/// The circuit of a compiled plan.
pub enum PlonkyCircuit {
    Agg(AggCircuit),
    Sort(SortCircuit),
    DescSort(DescSortCircuit),
    GroupBy(GroupByCircuit),
    Join(JoinCircuit),
}

impl PlonkyCircuit {
    /// The circuit is well-formed.
    pub open spec fn wf(self) -> bool {
        match self {
            PlonkyCircuit::Agg(c) => c.wf(),
            PlonkyCircuit::Sort(c) => c.wf(),
            PlonkyCircuit::DescSort(c) => c.wf(),
            PlonkyCircuit::GroupBy(c) => c.wf(),
            PlonkyCircuit::Join(c) => c.wf(),
        }
    }

    /// The circuit's tag.
    pub open spec fn spec_tag(self) -> u8 {
        match self {
            PlonkyCircuit::Agg(_) => TAG_AGG,
            PlonkyCircuit::Sort(_) => TAG_SORT,
            PlonkyCircuit::DescSort(_) => TAG_DESC_SORT,
            PlonkyCircuit::GroupBy(_) => TAG_GROUP_BY,
            PlonkyCircuit::Join(_) => TAG_JOIN,
        }
    }

    /// The circuit's constraint system.
    pub open spec fn spec_system(self) -> ConstraintSystem {
        match self {
            PlonkyCircuit::Agg(c) => c.system,
            PlonkyCircuit::Sort(c) => c.system,
            PlonkyCircuit::DescSort(c) => c.system,
            PlonkyCircuit::GroupBy(c) => c.system,
            PlonkyCircuit::Join(c) => c.system,
        }
    }

    /// The circuit's tag.
    pub fn tag(&self) -> (r: u8)
        ensures
            r == self.spec_tag(),
    {
        match self {
            PlonkyCircuit::Agg(_) => TAG_AGG,
            PlonkyCircuit::Sort(_) => TAG_SORT,
            PlonkyCircuit::DescSort(_) => TAG_DESC_SORT,
            PlonkyCircuit::GroupBy(_) => TAG_GROUP_BY,
            PlonkyCircuit::Join(_) => TAG_JOIN,
        }
    }

    /// The circuit's constraint system.
    pub fn system(&self) -> (r: &ConstraintSystem)
        ensures
            *r == self.spec_system(),
    {
        match self {
            PlonkyCircuit::Agg(c) => &c.system,
            PlonkyCircuit::Sort(c) => &c.system,
            PlonkyCircuit::DescSort(c) => &c.system,
            PlonkyCircuit::GroupBy(c) => &c.system,
            PlonkyCircuit::Join(c) => &c.system,
        }
    }

    /// Builds the circuit with the given tag; every tag that is not one of the
    /// others stands for the aggregation circuit.
    pub fn for_tag(tag: u8) -> (r: PlonkyCircuit)
        ensures
            r.wf(),
            r.spec_tag() == if tag <= 4 {
                tag
            } else {
                TAG_AGG
            },
    {
        if tag == TAG_SORT {
            PlonkyCircuit::Sort(SortCircuit::build())
        } else if tag == TAG_DESC_SORT {
            PlonkyCircuit::DescSort(DescSortCircuit::build())
        } else if tag == TAG_GROUP_BY {
            PlonkyCircuit::GroupBy(GroupByCircuit::build())
        } else if tag == TAG_JOIN {
            PlonkyCircuit::Join(JoinCircuit::build())
        } else {
            PlonkyCircuit::Agg(AggCircuit::build())
        }
    }
}

/// A compiled plan.
pub struct Plonky2CircuitHandle {
    pub plan_hash: [u8; 32],
    pub op_kind: OpKind,
    pub circuit: PlonkyCircuit,
    pub query_id: QueryId,
    pub snapshot_id: SnapshotId,
    pub dataset_id: DatasetId,
}

impl Plonky2CircuitHandle {
    /// The circuit is well-formed and the one for the kind.
    pub open spec fn wf(self) -> bool {
        self.circuit.wf() && self.circuit.spec_tag() == self.op_kind.tag()
    }

    /// The backend that compiled the plan.
    pub fn backend_tag(&self) -> (r: BackendTag)
        ensures
            r == BackendTag::Plonky2,
    {
        BackendTag::Plonky2
    }

    /// The number of public inputs that every circuit has.
    pub fn num_public_inputs(&self) -> (r: usize)
        ensures
            r == 4,
    {
        4
    }
}

/// `r` is the outcome of compiling a plan, whose JSON text is given beside it.
pub open spec fn compiled(
    plan: ProofPlan,
    plan_json: Seq<char>,
    r: ZkResult<Plonky2CircuitHandle>,
) -> bool {
    match r {
        Ok(h) => {
            &&& unsupported(plan.topology.tasks@) is None
            &&& h.wf()
            &&& h.op_kind == plan_kind(plan)
            &&& h.plan_hash@ == blake3_digest(encode_utf8(plan_json))
            &&& h.query_id == plan.query_id
            &&& h.snapshot_id == plan.snapshot_id
            &&& h.dataset_id == plan.dataset_id
        },
        Err(e) => e is Proving && unsupported(plan.topology.tasks@) == Some(e.text()),
    }
}

/// The Plonky2 backend. A stub compiles plans and verifies, but does not prove.
#[derive(Debug)]
pub struct Plonky2Backend {
    pub stub: bool,
}

impl Plonky2Backend {
    /// A backend that proves.
    pub fn new() -> (r: Plonky2Backend)
        ensures
            !r.stub,
    {
        Plonky2Backend { stub: false }
    }

    /// A stub.
    pub fn new_stub() -> (r: Plonky2Backend)
        ensures
            r.stub,
    {
        Plonky2Backend { stub: true }
    }

    /// The tag of the backend.
    pub fn tag(&self) -> (r: BackendTag)
        ensures
            r == BackendTag::Plonky2,
    {
        BackendTag::Plonky2
    }

    /// Compiles a plan, whose JSON text is handed in beside it, to its circuit.
    /// Fails exactly on the plans that are not supported.
    pub fn compile_circuit(
        &self,
        plan: &ProofPlan,
        plan_json: &str,
    ) -> (r: ZkResult<Plonky2CircuitHandle>)
        ensures
            r is Ok <==> unsupported(plan.topology.tasks@) is None,
            r matches Ok(h) ==> {
                &&& h.wf()
                &&& h.op_kind == plan_kind(*plan)
                &&& h.plan_hash@ == blake3_digest(encode_utf8(plan_json@))
                &&& h.query_id == plan.query_id
                &&& h.snapshot_id == plan.snapshot_id
                &&& h.dataset_id == plan.dataset_id
            },
            r matches Err(e) ==> e is Proving && unsupported(plan.topology.tasks@) == Some(e.text()),
            compiled(*plan, plan_json@, r),
    {
        let plan_hash: [u8; 32] = blake3_hash(plan_json.as_bytes());
        match find_unsupported(&plan.topology.tasks) {
            Some(m) => {
                return Err(ZkDbError::Proving(m));
            },
            None => {},
        }
        let op_kind: OpKind = classify_plan_with_params(plan);
        let circuit: PlonkyCircuit = PlonkyCircuit::for_tag(op_kind.circuit_tag());
        Ok(
            Plonky2CircuitHandle {
                plan_hash,
                op_kind,
                circuit,
                query_id: plan.query_id,
                snapshot_id: plan.snapshot_id,
                dataset_id: plan.dataset_id,
            },
        )
    }
}

impl Default for Plonky2Backend {
    fn default() -> (r: Plonky2Backend)
        ensures
            !r.stub,
    {
        Plonky2Backend::new()
    }
}

/// The values of a column, or none where there is no such column.
pub open spec fn column_words(columns: Seq<ColumnTrace>, i: int) -> Seq<u64> {
    if 0 <= i < columns.len() {
        words(columns[i].values@)
    } else {
        Seq::empty()
    }
}

/// `n` ones.
pub open spec fn ones(n: nat) -> Seq<u64> {
    Seq::new(n, |i: int| 1u64)
}

/// At most the first `MAX_ROWS` values.
pub open spec fn clipped(s: Seq<u64>) -> Seq<u64> {
    if s.len() <= MAX_ROWS {
        s
    } else {
        s.take(MAX_ROWS as int)
    }
}

/// What the aggregation circuit takes of a witness: the first column.
pub open spec fn agg_values(w: WitnessTrace) -> Seq<u64> {
    clipped(column_words(w.columns@, 0))
}

/// What the sort circuits take of a witness: the first columns as values, the
/// second and third as fingerprints. Without unsorted values, the sorted ones in
/// reverse order stand for them.
pub open spec fn sort_values(w: WitnessTrace) -> SortRows {
    let outs = column_words(w.columns@, 0);
    let ins = column_words(w.input_columns@, 0);
    SortRows {
        in_vals: if ins.len() == 0 {
            outs.reverse()
        } else {
            ins
        },
        out_vals: outs,
        in_lo: column_words(w.input_columns@, 1),
        out_lo: column_words(w.columns@, 1),
        in_hi: column_words(w.input_columns@, 2),
        out_hi: column_words(w.columns@, 2),
    }
}

/// The unsorted keys that the grouping circuit takes of a witness. Without an
/// input column, the sorted keys in reverse order stand for them.
pub open spec fn group_in_keys(w: WitnessTrace) -> Seq<u64> {
    if w.input_columns@.len() == 0 {
        column_words(w.columns@, 0).reverse()
    } else {
        column_words(w.input_columns@, 0)
    }
}

/// The values that the grouping circuit takes of a witness: the second column,
/// or ones.
pub open spec fn group_values(w: WitnessTrace) -> Seq<u64> {
    if w.columns@.len() <= 1 {
        ones(column_words(w.columns@, 0).len())
    } else {
        column_words(w.columns@, 1)
    }
}

/// The right keys that the join circuit takes of a witness: the second column,
/// or the left keys.
pub open spec fn join_right_keys(w: WitnessTrace) -> Seq<u64> {
    if w.columns@.len() <= 1 {
        column_words(w.columns@, 0)
    } else {
        column_words(w.columns@, 1)
    }
}

/// The left values that the join circuit takes of a witness: the third column,
/// or ones.
pub open spec fn join_left_values(w: WitnessTrace) -> Seq<u64> {
    if w.columns@.len() <= 2 {
        ones(column_words(w.columns@, 0).len())
    } else {
        column_words(w.columns@, 2)
    }
}

/// The selectors that the join circuit takes of a witness; without any, every
/// row is selected.
pub open spec fn join_selected(w: WitnessTrace) -> Seq<bool> {
    if w.selected@.len() == 0 {
        Seq::new(column_words(w.columns@, 0).len(), |i: int| true)
    } else {
        w.selected@
    }
}

/// The circuit with the given tag accepts the witness.
pub open spec fn witness_accepted(h: FieldHash, tag: u8, w: WitnessTrace) -> bool {
    let snap = root_lo(w.snapshot_root@);
    let qhash = root_lo(w.query_hash@);
    if tag == TAG_SORT {
        sort_accepts(h, sort_values(w), snap, qhash, false)
    } else if tag == TAG_DESC_SORT {
        sort_accepts(h, sort_values(w), snap, qhash, true)
    } else if tag == TAG_GROUP_BY {
        group_accepts(
            h,
            group_in_keys(w),
            column_words(w.columns@, 0),
            group_values(w),
            snap,
            qhash,
        )
    } else if tag == TAG_JOIN {
        join_accepts(
            h,
            column_words(w.columns@, 0),
            join_right_keys(w),
            join_left_values(w),
            join_selected(w),
            snap,
        )
    } else {
        agg_accepts(h, agg_values(w), snap, w.filter_op, w.filter_val)
    }
}

/// The public inputs of a proof of the witness by the circuit with the given tag.
pub open spec fn witness_statement(h: FieldHash, tag: u8, w: WitnessTrace) -> Seq<u64> {
    let snap = root_lo(w.snapshot_root@);
    let qhash = root_lo(w.query_hash@);
    if tag == TAG_SORT {
        sort_statement(h, sort_values(w), snap, qhash, false)
    } else if tag == TAG_DESC_SORT {
        sort_statement(h, sort_values(w), snap, qhash, true)
    } else if tag == TAG_GROUP_BY {
        group_statement(
            h,
            group_in_keys(w),
            column_words(w.columns@, 0),
            group_values(w),
            snap,
            qhash,
        )
    } else if tag == TAG_JOIN {
        join_statement(
            h,
            column_words(w.columns@, 0),
            join_right_keys(w),
            join_left_values(w),
            join_selected(w),
            snap,
            qhash,
        )
    } else {
        agg_statement(h, agg_values(w), snap, qhash, w.filter_op, w.filter_val)
    }
}

/// What the circuit with the given tag says where its constraints do not hold.
pub open spec fn unsatisfied(tag: u8) -> Seq<char> {
    if tag == TAG_SORT {
        "sort prove: constraints not satisfied"@
    } else if tag == TAG_DESC_SORT {
        "desc_sort prove: constraints not satisfied"@
    } else if tag == TAG_GROUP_BY {
        "group_by prove: constraints not satisfied"@
    } else if tag == TAG_JOIN {
        "join prove: constraints not satisfied"@
    } else {
        "agg prove: constraints not satisfied"@
    }
}

/// What a stub says when it is asked to prove.
pub open spec fn stub_message() -> Seq<char> {
    "Plonky2 stub: proving is not yet wired"@
}

/// What the backend says of a witness without a commitment to its rows.
pub open spec fn zero_snap_message() -> Seq<char> {
    "snap_lo is zero: snapshot Poseidon commitment is missing or degenerate. WitnessBuilder::build() must be used to set witness.snapshot_root before calling prove().  A zero snap_lo produces a proof bound to no real dataset."@
}

/// `r` answers the request to prove a witness with a compiled circuit.
pub open spec fn answered(
    h: FieldHash,
    stub: bool,
    circuit: PlonkyCircuit,
    w: WitnessTrace,
    r: ZkResult<CircuitWitness>,
) -> bool {
    let tag = circuit.spec_tag();
    &&& r is Ok <==> !stub && root_lo(w.snapshot_root@) != 0 && witness_accepted(h, tag, w)
    &&& r matches Ok(p) ==> {
        &&& circuit.spec_system().satisfied(p.wires@, h)
        &&& p.public_inputs@ == witness_statement(h, tag, w)
    }
    &&& r matches Err(e) ==> e is Proving && e.text() == if stub {
        stub_message()
    } else if root_lo(w.snapshot_root@) == 0 {
        zero_snap_message()
    } else {
        unsatisfied(tag)
    }
}

/// Reads a column.
fn read_column(columns: &Vec<ColumnTrace>, i: usize) -> (r: Vec<u64>)
    ensures
        r@ == column_words(columns@, i as int),
{
    let mut r: Vec<u64> = Vec::new();
    if i < columns.len() {
        let mut k: usize = 0;
        while k < columns[i].values.len()
            invariant
                i < columns@.len(),
                k <= columns@[i as int].values@.len(),
                r@.len() == k,
                forall|j: int|
                    0 <= j < k ==> #[trigger] r@[j] == words(columns@[i as int].values@)[j],
            decreases columns@[i as int].values@.len() - k,
        {
            r.push(columns[i].values[k].0);
            k = k + 1;
        }
    }
    assert(r@ =~= column_words(columns@, i as int));
    r
}

/// The values in reverse order.
fn reversed(v: &Vec<u64>) -> (r: Vec<u64>)
    ensures
        r@ == v@.reverse(),
{
    let mut r: Vec<u64> = Vec::new();
    let mut i: usize = v.len();
    while i > 0
        invariant
            i <= v@.len(),
            r@.len() == v@.len() - i,
            forall|k: int| 0 <= k < r@.len() ==> #[trigger] r@[k] == v@[v@.len() - 1 - k],
        decreases i,
    {
        i = i - 1;
        r.push(v[i]);
    }
    assert(r@ =~= v@.reverse());
    r
}

/// `n` ones.
fn make_ones(n: usize) -> (r: Vec<u64>)
    ensures
        r@ == ones(n as nat),
{
    let mut r: Vec<u64> = Vec::new();
    let mut i: usize = 0;
    while i < n
        invariant
            i <= n,
            r@ =~= ones(i as nat),
        decreases n - i,
    {
        r.push(1);
        i = i + 1;
    }
    r
}

/// What the aggregation circuit takes of a witness.
pub fn extract_agg_inputs(witness: &WitnessTrace) -> (r: (Vec<u64>, u64, u64))
    ensures
        r.0@ == agg_values(*witness),
        r.1 == witness.filter_op,
        r.2 == witness.filter_val,
{
    let mut values: Vec<u64> = read_column(&witness.columns, 0);
    if values.len() > MAX_ROWS {
        values.truncate(MAX_ROWS);
        assert(values@ =~= agg_values(*witness));
    }
    (values, witness.filter_op, witness.filter_val)
}

/// What the sort circuits take of a witness: values unsorted and sorted, then
/// low halves of fingerprints unsorted and sorted, then high halves.
pub fn extract_sort_inputs(witness: &WitnessTrace) -> (r: (
    Vec<u64>,
    Vec<u64>,
    Vec<u64>,
    Vec<u64>,
    Vec<u64>,
    Vec<u64>,
))
    ensures
        r.0@ == sort_values(*witness).in_vals,
        r.1@ == sort_values(*witness).out_vals,
        r.2@ == sort_values(*witness).in_lo,
        r.3@ == sort_values(*witness).out_lo,
        r.4@ == sort_values(*witness).in_hi,
        r.5@ == sort_values(*witness).out_hi,
{
    let out_vals: Vec<u64> = read_column(&witness.columns, 0);
    let raw: Vec<u64> = read_column(&witness.input_columns, 0);
    let in_vals: Vec<u64> = if raw.len() == 0 {
        reversed(&out_vals)
    } else {
        raw
    };
    let in_lo: Vec<u64> = read_column(&witness.input_columns, 1);
    let out_lo: Vec<u64> = read_column(&witness.columns, 1);
    let in_hi: Vec<u64> = read_column(&witness.input_columns, 2);
    let out_hi: Vec<u64> = read_column(&witness.columns, 2);
    (in_vals, out_vals, in_lo, out_lo, in_hi, out_hi)
}

/// What the grouping circuit takes of a witness: keys unsorted and sorted, and
/// values.
pub fn extract_group_by_inputs(witness: &WitnessTrace) -> (r: (Vec<u64>, Vec<u64>, Vec<u64>))
    ensures
        r.0@ == group_in_keys(*witness),
        r.1@ == column_words(witness.columns@, 0),
        r.2@ == group_values(*witness),
{
    let out_keys: Vec<u64> = read_column(&witness.columns, 0);
    let in_keys: Vec<u64> = if witness.input_columns.len() == 0 {
        reversed(&out_keys)
    } else {
        read_column(&witness.input_columns, 0)
    };
    let vals: Vec<u64> = if witness.columns.len() <= 1 {
        make_ones(out_keys.len())
    } else {
        read_column(&witness.columns, 1)
    };
    (in_keys, out_keys, vals)
}

/// What the join circuit takes of a witness: left keys, right keys, left values
/// and selectors.
pub fn extract_join_inputs(witness: &WitnessTrace) -> (r: (
    Vec<u64>,
    Vec<u64>,
    Vec<u64>,
    Vec<bool>,
))
    ensures
        r.0@ == column_words(witness.columns@, 0),
        r.1@ == join_right_keys(*witness),
        r.2@ == join_left_values(*witness),
        r.3@ == join_selected(*witness),
{
    let left_keys: Vec<u64> = read_column(&witness.columns, 0);
    let right_keys: Vec<u64> = if witness.columns.len() <= 1 {
        read_column(&witness.columns, 0)
    } else {
        read_column(&witness.columns, 1)
    };
    let left_vals: Vec<u64> = if witness.columns.len() <= 2 {
        make_ones(left_keys.len())
    } else {
        read_column(&witness.columns, 2)
    };
    let mut selected: Vec<bool> = Vec::new();
    let empty: bool = witness.selected.len() == 0;
    let n: usize = if empty {
        left_keys.len()
    } else {
        witness.selected.len()
    };
    let mut i: usize = 0;
    while i < n
        invariant
            i <= n,
            empty == (witness.selected@.len() == 0),
            n == join_selected(*witness).len(),
            selected@ =~= join_selected(*witness).take(i as int),
        decreases n - i,
    {
        if empty {
            selected.push(true);
        } else {
            selected.push(witness.selected[i]);
        }
        i = i + 1;
    }
    assert(selected@ =~= join_selected(*witness));
    (left_keys, right_keys, left_vals, selected)
}

impl Plonky2Backend {
    /// Assigns a compiled circuit's wires from a witness. What is returned
    /// satisfies the circuit, and is what the proof system then proves. Fails
    /// where the backend is a stub, where the witness holds no commitment to its
    /// rows, and where the circuit does not accept the witness.
    pub fn prove_witness<H: Fn(&Vec<u64>) -> [u64; 4]>(
        &self,
        handle: &Plonky2CircuitHandle,
        witness: &WitnessTrace,
        hash: &H,
    ) -> (r: ZkResult<CircuitWitness>)
        requires
            handle.wf(),
            is_total(*hash),
        ensures
            forall|h: FieldHash| #[trigger]
                computes(*hash, h) ==> {
                    let tag = handle.circuit.spec_tag();
                    &&& r is Ok <==> !self.stub && root_lo(witness.snapshot_root@) != 0
                        && witness_accepted(h, tag, *witness)
                    &&& r matches Ok(p) ==> handle.circuit.spec_system().satisfied(p.wires@, h)
                        && p.public_inputs@ == witness_statement(h, tag, *witness)
                },
            r matches Err(e) ==> e is Proving && e.text() == if self.stub {
                stub_message()
            } else if root_lo(witness.snapshot_root@) == 0 {
                zero_snap_message()
            } else {
                unsatisfied(handle.circuit.spec_tag())
            },
            forall|h: FieldHash| #[trigger]
                computes(*hash, h) ==> answered(h, self.stub, handle.circuit, *witness, r),
    {
        if self.stub {
            return Err(ZkDbError::Proving("Plonky2 stub: proving is not yet wired".to_owned()));
        }
        let snap_lo: u64 = commitment_lo(&witness.snapshot_root);
        if snap_lo == 0 {
            return Err(
                ZkDbError::Proving(
                    "snap_lo is zero: snapshot Poseidon commitment is missing or degenerate. WitnessBuilder::build() must be used to set witness.snapshot_root before calling prove().  A zero snap_lo produces a proof bound to no real dataset.".to_owned(),
                ),
            );
        }
        let qhash_lo: u64 = commitment_lo(&witness.query_hash);
        let proved: Result<CircuitWitness, String> = match &handle.circuit {
            PlonkyCircuit::Agg(c) => {
                let x: (Vec<u64>, u64, u64) = extract_agg_inputs(witness);
                c.prove(x.0.as_slice(), snap_lo, qhash_lo, x.1, x.2, hash)
            },
            PlonkyCircuit::Sort(c) => {
                let x: (Vec<u64>, Vec<u64>, Vec<u64>, Vec<u64>, Vec<u64>, Vec<u64>) =
                    extract_sort_inputs(witness);
                let r: Result<CircuitWitness, String> = c.prove(
                    x.0.as_slice(),
                    x.1.as_slice(),
                    x.2.as_slice(),
                    x.3.as_slice(),
                    x.4.as_slice(),
                    x.5.as_slice(),
                    snap_lo,
                    qhash_lo,
                    hash,
                );
                r
            },
            PlonkyCircuit::DescSort(c) => {
                let x: (Vec<u64>, Vec<u64>, Vec<u64>, Vec<u64>, Vec<u64>, Vec<u64>) =
                    extract_sort_inputs(witness);
                let r: Result<CircuitWitness, String> = c.prove(
                    x.0.as_slice(),
                    x.1.as_slice(),
                    x.2.as_slice(),
                    x.3.as_slice(),
                    x.4.as_slice(),
                    x.5.as_slice(),
                    snap_lo,
                    qhash_lo,
                    hash,
                );
                r
            },
            PlonkyCircuit::GroupBy(c) => {
                let x: (Vec<u64>, Vec<u64>, Vec<u64>) = extract_group_by_inputs(witness);
                c.prove(
                    x.0.as_slice(),
                    x.1.as_slice(),
                    x.2.as_slice(),
                    snap_lo,
                    qhash_lo,
                    hash,
                )
            },
            PlonkyCircuit::Join(c) => {
                let x: (Vec<u64>, Vec<u64>, Vec<u64>, Vec<bool>) = extract_join_inputs(witness);
                c.prove(
                    x.0.as_slice(),
                    x.1.as_slice(),
                    x.2.as_slice(),
                    x.3.as_slice(),
                    snap_lo,
                    qhash_lo,
                    hash,
                )
            },
        };
        match proved {
            Ok(p) => Ok(p),
            Err(e) => Err(ZkDbError::Proving(e)),
        }
    }
}

} // verus!
