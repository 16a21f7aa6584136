//! Witness traces: the concrete values that are assigned to a circuit, built
//! from the rows of a snapshot and a proof plan.

use vstd::prelude::*;
use vstd::utf8::encode_utf8;

pub use crate::circuit::group_by::compute_group_output_lo_padded;
use crate::circuit::ordering::sort_rows;
use crate::circuit::ordering::sorted_rows;
use crate::circuit::ordering::KeyedRow;
use crate::circuit::permutation::mapped_permutation;
use crate::circuit::system::computes;
use crate::circuit::system::is_total;
use crate::circuit::system::FieldHash;
use crate::commitment::poseidon::packed_words;
use crate::commitment::poseidon::poseidon_snapshot_root;
use crate::commitment::poseidon::primaries;
use crate::commitment::poseidon::primary;
use crate::commitment::poseidon::root_bytes;
use crate::commitment::poseidon::row_digest;
use crate::commitment::poseidon::row_primary_field_element;
use crate::commitment::poseidon::row_views;
use crate::commitment::poseidon::snap_lo;
use crate::commitment::poseidon::words;
use crate::commitment::poseidon::MAX_ROWS;
use crate::database::StagedChunk;
use crate::encoding::le_bytes;
use crate::field::residue;
use crate::field::FieldElement;
use crate::outside::blake3_digest;
use crate::outside::blake3_hash;
use crate::outside::uuid_text;
use crate::proofs::artifacts::PublicInputs;
use crate::query::proof_plan::groups_by_keys;
use crate::query::proof_plan::has_keys;
use crate::query::proof_plan::root_index;
use crate::query::proof_plan::ProofOperator;
use crate::query::proof_plan::ProofPlan;
use crate::types::QueryId;
use crate::types::SnapshotId;
use crate::types::ZkResult;

verus! {

/// The values of one column, one for each row.
#[derive(Debug)]
pub struct ColumnTrace {
    pub column_name: String,
    pub values: Vec<FieldElement>,
    /// Which values are null.
    pub nulls: Vec<bool>,
}

impl ColumnTrace {
    /// The column has the given name and values, and no nulls.
    pub open spec fn holds(self, name: Seq<char>, values: Seq<u64>) -> bool {
        &&& self.column_name@ == name
        &&& words(self.values@) == values
        &&& self.nulls@ == Seq::new(values.len(), |i: int| false)
    }

    /// A column without nulls.
    pub fn new(column_name: &str, values: Vec<FieldElement>) -> (r: ColumnTrace)
        ensures
            r.holds(column_name@, words(values@)),
            r.values@ == values@,
    {
        let mut nulls: Vec<bool> = Vec::new();
        let mut i: usize = 0;
        while i < values.len()
            invariant
                i <= values@.len(),
                nulls@ =~= Seq::new(i as nat, |k: int| false),
            decreases values@.len() - i,
        {
            nulls.push(false);
            i = i + 1;
        }
        ColumnTrace { column_name: column_name.to_owned(), values, nulls }
    }

    /// The number of rows.
    pub fn len(&self) -> (r: usize)
        ensures
            r == self.values@.len(),
    {
        self.values.len()
    }

    /// Whether there are no rows.
    pub fn is_empty(&self) -> (r: bool)
        ensures
            r == (self.values@.len() == 0),
    {
        self.values.is_empty()
    }
}

/// An intermediate value of an aggregate.
#[derive(Debug)]
pub struct AggregateWitness {
    pub column_name: String,
    pub kind: String,
    pub value: FieldElement,
    pub count: u64,
}

/// All witness values of a proving task.
#[derive(Debug)]
pub struct WitnessTrace {
    pub query_id: QueryId,
    pub snapshot_id: SnapshotId,
    /// The commitment to the rows; its first eight bytes are `snap_lo`.
    pub snapshot_root: [u8; 32],
    pub query_hash: [u8; 32],
    pub result_commitment: [u8; 32],
    pub result_row_count: u64,
    /// The columns that the operator puts out.
    pub columns: Vec<ColumnTrace>,
    /// The columns that the operator takes in, where it reorders rows.
    pub input_columns: Vec<ColumnTrace>,
    /// Which rows are selected.
    pub selected: Vec<bool>,
    pub aggregates: Vec<AggregateWitness>,
    /// The predicate: 0 for none, 1 for `=`, 2 for `<`, 3 for `>`.
    pub filter_op: u64,
    pub filter_val: u64,
    /// The commitment to the groups, where the operator groups.
    pub group_output_lo: u64,
    /// The `snap_lo` of the right side, where the operator joins.
    pub join_right_snap_lo: u64,
    pub sort_descending: bool,
}

/// Thirty-two zero bytes.
pub open spec fn zero_root() -> Seq<u8> {
    Seq::new(32, |i: int| 0u8)
}

impl WitnessTrace {
    /// Everything but the identifiers is empty or zero.
    pub open spec fn blank(self) -> bool {
        &&& self.snapshot_root@ == zero_root()
        &&& self.query_hash@ == zero_root()
        &&& self.result_commitment@ == zero_root()
        &&& self.result_row_count == 0
        &&& self.columns@.len() == 0
        &&& self.input_columns@.len() == 0
        &&& self.selected@.len() == 0
        &&& self.aggregates@.len() == 0
        &&& self.filter_op == 0
        &&& self.filter_val == 0
        &&& self.group_output_lo == 0
        &&& self.join_right_snap_lo == 0
        &&& !self.sort_descending
    }

    /// An empty trace.
    pub fn new(query_id: QueryId, snapshot_id: SnapshotId) -> (r: WitnessTrace)
        ensures
            r.blank(),
            r.query_id == query_id,
            r.snapshot_id == snapshot_id,
    {
        let zero: [u8; 32] = [0u8; 32];
        assert(zero@ =~= zero_root());
        WitnessTrace {
            query_id,
            snapshot_id,
            snapshot_root: zero,
            query_hash: zero,
            result_commitment: zero,
            result_row_count: 0,
            columns: Vec::new(),
            input_columns: Vec::new(),
            selected: Vec::new(),
            aggregates: Vec::new(),
            filter_op: 0,
            filter_val: 0,
            group_output_lo: 0,
            join_right_snap_lo: 0,
            sort_descending: false,
        }
    }

    /// The bytes that stand for a witness in a mock proof: the digest of its
    /// JSON text, which is handed in.
    pub fn proof_bytes_placeholder(&self, json: &str) -> (r: Vec<u8>)
        ensures
            r@ == blake3_digest(encode_utf8(json@)),
    {
        let d: [u8; 32] = blake3_hash(json.as_bytes());
        let r: Vec<u8> = vstd::slice::slice_to_vec(&d);
        r
    }

    /// The number of rows of the first column.
    pub fn row_count(&self) -> (r: usize)
        ensures
            r == if self.columns@.len() == 0 {
                0
            } else {
                self.columns@[0].values@.len()
            },
    {
        if self.columns.len() == 0 {
            0
        } else {
            self.columns[0].len()
        }
    }
}

/// The rows of all chunks, in order.
pub open spec fn all_rows(chunks: Seq<StagedChunk>) -> Seq<Seq<u8>>
    decreases chunks.len(),
{
    if chunks.len() == 0 {
        Seq::empty()
    } else {
        all_rows(chunks.drop_last()) + row_views(chunks.last().row_bytes@)
    }
}

/// An element of the digest of each row.
pub open spec fn fingerprints(h: FieldHash, rows: Seq<Seq<u8>>, k: int) -> Seq<u64> {
    Seq::new(rows.len(), |i: int| h(packed_words(rows[i]))[k])
}

/// Rows as triples of primary field element and fingerprint halves.
pub open spec fn keyed_rows(h: FieldHash, rows: Seq<Seq<u8>>) -> Seq<KeyedRow> {
    Seq::new(
        rows.len(),
        |i: int| (primary(rows[i]), h(packed_words(rows[i]))[0], h(packed_words(rows[i]))[1]),
    )
}

/// The first, second or third components of keyed rows.
pub open spec fn component(rows: Seq<KeyedRow>, k: int) -> Seq<u64> {
    Seq::new(
        rows.len(),
        |i: int|
            if k == 0 {
                rows[i].0
            } else if k == 1 {
                rows[i].1
            } else {
                rows[i].2
            },
    )
}

/// How an operator shapes the witness.
pub enum Shape {
    /// Rows are sorted, with their fingerprints.
    Sorted,
    /// Keys are sorted.
    Grouped,
    /// Rows stay as they are.
    Plain,
}

/// How the operator shapes the witness: a sort and a grouping reorder rows, and
/// every other operator leaves them in order.
pub open spec fn shape_of(op: ProofOperator) -> Shape {
    match op {
        ProofOperator::Sort { .. } => Shape::Sorted,
        ProofOperator::PartialAggregate { group_by_json, .. } => if has_keys(group_by_json@) {
            Shape::Grouped
        } else {
            Shape::Plain
        },
        ProofOperator::MergeAggregate { group_by_json, .. } => if has_keys(group_by_json@) {
            Shape::Grouped
        } else {
            Shape::Plain
        },
        _ => Shape::Plain,
    }
}

/// The input and output columns of a sort: the unsorted and the sorted rows with
/// their fingerprints.
pub open spec fn sorted_shape(
    h: FieldHash,
    rows: Seq<Seq<u8>>,
    descending: bool,
    ins: Seq<ColumnTrace>,
    outs: Seq<ColumnTrace>,
) -> bool {
    &&& ins.len() == 3
    &&& ins[0].holds("__primary_in"@, primaries(rows))
    &&& ins[1].holds("__secondary_in"@, fingerprints(h, rows, 0))
    &&& ins[2].holds("__secondary_in_hi"@, fingerprints(h, rows, 1))
    &&& outs.len() == 3
    &&& exists|s: Seq<KeyedRow>|
        {
            &&& #[trigger] sorted_rows(s, descending)
            &&& s.to_multiset() == keyed_rows(h, rows).to_multiset()
            &&& outs[0].holds("__primary_out"@, component(s, 0))
            &&& outs[1].holds("__secondary_out"@, component(s, 1))
            &&& outs[2].holds("__secondary_out_hi"@, component(s, 2))
        }
}

/// A column of keys in ascending order.
pub open spec fn sorted_keys(s: Seq<u64>) -> bool {
    forall|i: int, j: int| 0 <= i < j < s.len() ==> #[trigger] s[i] <= #[trigger] s[j]
}

/// The input and output columns of a grouping: the unsorted and the sorted keys.
pub open spec fn grouped_shape(
    rows: Seq<Seq<u8>>,
    ins: Seq<ColumnTrace>,
    outs: Seq<ColumnTrace>,
) -> bool {
    &&& ins.len() == 1
    &&& ins[0].holds("__primary_in"@, primaries(rows))
    &&& outs.len() == 1
    &&& outs[0].holds("__primary_out"@, words(outs[0].values@))
    &&& sorted_keys(words(outs[0].values@))
    &&& words(outs[0].values@).to_multiset() == primaries(rows).to_multiset()
}

/// The output column where rows stay as they are.
pub open spec fn plain_shape(
    rows: Seq<Seq<u8>>,
    ins: Seq<ColumnTrace>,
    outs: Seq<ColumnTrace>,
) -> bool {
    &&& ins.len() == 0
    &&& outs.len() == 1
    &&& outs[0].holds("__primary"@, primaries(rows))
}

/// The canonical bytes of the first `n` values of a column.
pub open spec fn value_bytes(values: Seq<FieldElement>, n: int) -> Seq<u8>
    decreases n,
{
    if n <= 0 {
        Seq::empty()
    } else {
        value_bytes(values, n - 1) + le_bytes(residue(values[n - 1].0) as nat, 8)
    }
}

/// The canonical bytes of all values of the first `n` columns.
pub open spec fn column_bytes(columns: Seq<ColumnTrace>, n: int) -> Seq<u8>
    decreases n,
{
    if n <= 0 {
        Seq::empty()
    } else {
        column_bytes(columns, n - 1) + value_bytes(
            columns[n - 1].values@,
            columns[n - 1].values@.len() as int,
        )
    }
}

/// The root operator of a plan.
pub open spec fn root_op(plan: ProofPlan) -> ProofOperator {
    plan.topology.tasks@[root_index(plan.topology.tasks@, plan.topology.root_task_id)].operator
}

/// `t` is the witness of a plan over the rows of some chunks.
pub open spec fn built(
    h: FieldHash,
    query_id: QueryId,
    snapshot_id: SnapshotId,
    plan: ProofPlan,
    chunks: Seq<StagedChunk>,
    t: WitnessTrace,
) -> bool {
    let rows = all_rows(chunks);
    let op = root_op(plan);
    &&& t.query_id == query_id
    &&& t.snapshot_id == snapshot_id
    &&& t.snapshot_root@ == root_bytes(snap_lo(h, MAX_ROWS as nat, primaries(rows)))
    &&& t.query_hash@ == blake3_digest(encode_utf8(uuid_text(plan.query_id.0)))
    &&& t.selected@ == Seq::new(rows.len(), |i: int| true)
    &&& t.result_row_count == rows.len()
    &&& t.result_commitment@ == blake3_digest(column_bytes(t.columns@, t.columns@.len() as int))
    &&& t.aggregates@.len() == 0
    &&& t.filter_op == 0
    &&& t.filter_val == 0
    &&& t.group_output_lo == 0
    &&& t.join_right_snap_lo == 0
    &&& t.sort_descending == plan.operator_params.sort_descending
    &&& match shape_of(op) {
        Shape::Sorted => sorted_shape(h, rows, t.sort_descending, t.input_columns@, t.columns@),
        Shape::Grouped => grouped_shape(rows, t.input_columns@, t.columns@),
        Shape::Plain => plain_shape(rows, t.input_columns@, t.columns@),
    }
}

/// Builds witness traces.
pub struct WitnessBuilder;

impl WitnessBuilder {
    /// Collects the rows of all chunks.
    fn collect_rows(chunks: &[StagedChunk]) -> (r: Vec<Vec<u8>>)
        ensures
            row_views(r@) == all_rows(chunks@),
    {
        let mut r: Vec<Vec<u8>> = Vec::new();
        let mut i: usize = 0;
        assert(chunks@.take(0) =~= Seq::<StagedChunk>::empty());
        assert(row_views(r@) =~= all_rows(chunks@.take(0)));
        while i < chunks.len()
            invariant
                i <= chunks@.len(),
                row_views(r@) == all_rows(chunks@.take(i as int)),
            decreases chunks@.len() - i,
        {
            let ghost before = row_views(r@);
            let mut j: usize = 0;
            while j < chunks[i as usize].row_bytes.len()
                invariant
                    i < chunks@.len(),
                    j <= chunks@[i as int].row_bytes@.len(),
                    row_views(r@) =~= before + row_views(chunks@[i as int].row_bytes@).take(
                        j as int,
                    ),
                decreases chunks@[i as int].row_bytes@.len() - j,
            {
                let row: Vec<u8> = vstd::slice::slice_to_vec(chunks[i].row_bytes[j].as_slice());
                let ghost earlier = row_views(r@);
                r.push(row);
                assert(row_views(r@) =~= earlier.push(row@));
                j = j + 1;
            }
            proof {
                let t = chunks@.take(i + 1);
                assert(t.drop_last() =~= chunks@.take(i as int));
                assert(t.last() == chunks@[i as int]);
                let views = row_views(chunks@[i as int].row_bytes@);
                assert(views.take(views.len() as int) =~= views);
            }
            i = i + 1;
        }
        assert(chunks@.take(chunks@.len() as int) =~= chunks@);
        r
    }

    /// The primary field elements of all rows.
    fn primary_column(rows: &Vec<Vec<u8>>) -> (r: Vec<FieldElement>)
        ensures
            words(r@) == primaries(row_views(rows@)),
    {
        let mut r: Vec<FieldElement> = Vec::new();
        let mut i: usize = 0;
        while i < rows.len()
            invariant
                i <= rows@.len(),
                r@.len() == i,
                forall|k: int|
                    0 <= k < i ==> (#[trigger] r@[k]).0 == primaries(row_views(rows@))[k],
            decreases rows@.len() - i,
        {
            r.push(FieldElement(row_primary_field_element(rows[i].as_slice())));
            i = i + 1;
        }
        assert(words(r@) =~= primaries(row_views(rows@)));
        r
    }

    /// All rows as triples of primary field element and fingerprint halves.
    fn keyed<H: Fn(&Vec<u64>) -> [u64; 4]>(rows: &Vec<Vec<u8>>, hash: &H) -> (r: Vec<KeyedRow>)
        requires
            is_total(*hash),
        ensures
            forall|h: FieldHash| #[trigger]
                computes(*hash, h) ==> r@ == keyed_rows(h, row_views(rows@)),
    {
        let mut r: Vec<KeyedRow> = Vec::new();
        let mut i: usize = 0;
        while i < rows.len()
            invariant
                is_total(*hash),
                i <= rows@.len(),
                forall|h: FieldHash| #[trigger]
                    computes(*hash, h) ==> r@ =~= keyed_rows(h, row_views(rows@)).take(i as int),
            decreases rows@.len() - i,
        {
            let d: [u64; 4] = row_digest(rows[i].as_slice(), hash);
            let key: u64 = row_primary_field_element(rows[i].as_slice());
            let ghost before = r@;
            r.push((key, d[0], d[1]));
            proof {
                assert forall|h: FieldHash| #[trigger] computes(*hash, h) implies r@ =~= keyed_rows(
                    h,
                    row_views(rows@),
                ).take(i + 1) by {
                    assert(before =~= keyed_rows(h, row_views(rows@)).take(i as int));
                    assert(d@ == h(packed_words(rows@[i as int]@)));
                    assert(d[0] == d@[0] && d[1] == d@[1]);
                }
            }
            i = i + 1;
        }
        assert forall|h: FieldHash| #[trigger] computes(*hash, h) implies r@ == keyed_rows(
            h,
            row_views(rows@),
        ) by {
            assert(keyed_rows(h, row_views(rows@)).take(rows@.len() as int) =~= keyed_rows(
                h,
                row_views(rows@),
            ));
        }
        r
    }

    /// All rows as triples of primary field element and zeros.
    fn keys_alone(rows: &Vec<Vec<u8>>) -> (r: Vec<KeyedRow>)
        ensures
            component(r@, 0) == primaries(row_views(rows@)),
    {
        let mut r: Vec<KeyedRow> = Vec::new();
        let mut i: usize = 0;
        while i < rows.len()
            invariant
                i <= rows@.len(),
                r@.len() == i,
                forall|k: int| 0 <= k < i ==> (#[trigger] r@[k]).0 == primary(rows@[k]@),
            decreases rows@.len() - i,
        {
            r.push((row_primary_field_element(rows[i].as_slice()), 0, 0));
            i = i + 1;
        }
        assert(component(r@, 0) =~= primaries(row_views(rows@)));
        r
    }

    /// One component of keyed rows.
    fn pick(rows: &Vec<KeyedRow>, k: u64) -> (r: Vec<FieldElement>)
        requires
            k <= 2,
        ensures
            words(r@) == component(rows@, k as int),
    {
        let mut r: Vec<FieldElement> = Vec::new();
        let mut i: usize = 0;
        while i < rows.len()
            invariant
                i <= rows@.len(),
                r@.len() == i,
                forall|j: int| 0 <= j < i ==> (#[trigger] r@[j]).0 == component(rows@, k as int)[j],
            decreases rows@.len() - i,
        {
            let v: u64 = if k == 0 {
                rows[i].0
            } else if k == 1 {
                rows[i].1
            } else {
                rows[i].2
            };
            r.push(FieldElement(v));
            i = i + 1;
        }
        assert(words(r@) =~= component(rows@, k as int));
        r
    }

    /// The canonical bytes of all values of all columns.
    fn all_bytes(columns: &Vec<ColumnTrace>) -> (r: Vec<u8>)
        ensures
            r@ == column_bytes(columns@, columns@.len() as int),
    {
        let mut r: Vec<u8> = Vec::new();
        let mut i: usize = 0;
        assert(r@ =~= column_bytes(columns@, 0));
        while i < columns.len()
            invariant
                i <= columns@.len(),
                r@ == column_bytes(columns@, i as int),
            decreases columns@.len() - i,
        {
            let ghost before = r@;
            let mut j: usize = 0;
            assert(r@ =~= before + value_bytes(columns@[i as int].values@, 0));
            while j < columns[i].values.len()
                invariant
                    i < columns@.len(),
                    j <= columns@[i as int].values@.len(),
                    r@ == before + value_bytes(columns@[i as int].values@, j as int),
                decreases columns@[i as int].values@.len() - j,
            {
                let mut b: Vec<u8> = columns[i].values[j].to_canonical_bytes();
                r.append(&mut b);
                j = j + 1;
                assert(r@ =~= before + value_bytes(columns@[i as int].values@, j as int));
            }
            i = i + 1;
        }
        r
    }

    /// `n` times true.
    fn all_selected(n: usize) -> (r: Vec<bool>)
        ensures
            r@ == Seq::new(n as nat, |i: int| true),
    {
        let mut r: Vec<bool> = Vec::new();
        let mut i: usize = 0;
        while i < n
            invariant
                i <= n,
                r@ =~= Seq::new(i as nat, |k: int| true),
            decreases n - i,
        {
            r.push(true);
            i = i + 1;
        }
        r
    }

    /// Builds the witness of a plan from the rows of a snapshot. The column is
    /// the primary field element of each row. Where the root operator sorts, the
    /// rows are sorted with their fingerprints, and where it groups, the keys
    /// are sorted; the original order is kept beside them. The snapshot root
    /// commits to the rows in their original order.
    pub fn build<H: Fn(&Vec<u64>) -> [u64; 4]>(
        query_id: QueryId,
        snapshot_id: SnapshotId,
        proof_plan: &ProofPlan,
        chunks: &[StagedChunk],
        hash: &H,
    ) -> (r: ZkResult<WitnessTrace>)
        requires
            proof_plan.topology.tasks@.len() > 0,
            is_total(*hash),
        ensures
            r matches Ok(t) && {
                let rows = all_rows(chunks@);
                let op = proof_plan.topology.tasks@[root_index(
                    proof_plan.topology.tasks@,
                    proof_plan.topology.root_task_id,
                )].operator;
                &&& t.query_id == query_id
                &&& t.snapshot_id == snapshot_id
                &&& t.query_hash@ == blake3_digest(encode_utf8(uuid_text(proof_plan.query_id.0)))
                &&& t.selected@ == Seq::new(rows.len(), |i: int| true)
                &&& t.result_row_count == rows.len()
                &&& t.result_commitment@ == blake3_digest(
                    column_bytes(t.columns@, t.columns@.len() as int),
                )
                &&& t.aggregates@.len() == 0
                &&& t.filter_op == 0
                &&& t.filter_val == 0
                &&& t.group_output_lo == 0
                &&& t.join_right_snap_lo == 0
                &&& t.sort_descending == proof_plan.operator_params.sort_descending
                &&& shape_of(op) is Grouped ==> grouped_shape(rows, t.input_columns@, t.columns@)
                &&& shape_of(op) is Plain ==> plain_shape(rows, t.input_columns@, t.columns@)
                &&& forall|h: FieldHash| #[trigger]
                    computes(*hash, h) ==> {
                        &&& t.snapshot_root@ == root_bytes(
                            snap_lo(h, MAX_ROWS as nat, primaries(rows)),
                        )
                        &&& shape_of(op) is Sorted ==> sorted_shape(
                            h,
                            rows,
                            proof_plan.operator_params.sort_descending,
                            t.input_columns@,
                            t.columns@,
                        )
                    }
            },
            forall|h: FieldHash| #[trigger]
                computes(*hash, h) ==> (r matches Ok(t) && built(
                    h,
                    query_id,
                    snapshot_id,
                    *proof_plan,
                    chunks@,
                    t,
                )),
    {
        let ghost rows = all_rows(chunks@);
        let mut trace: WitnessTrace = WitnessTrace::new(query_id, snapshot_id);
        let id_text: String = proof_plan.query_id.to_string();
        trace.query_hash = PublicInputs::compute_query_hash(id_text.as_str());
        let all_row_bytes: Vec<Vec<u8>> = Self::collect_rows(chunks);
        let n: usize = all_row_bytes.len();
        assert(rows.len() == n);
        trace.snapshot_root = poseidon_snapshot_root(all_row_bytes.as_slice(), hash);
        let descending: bool = proof_plan.operator_params.sort_descending;
        trace.sort_descending = descending;
        let root_op: &ProofOperator = match proof_plan.topology.root_operator() {
            Some(op) => op,
            None => {
                return Ok(trace);
            },
        };
        let shape: Shape = match root_op {
            ProofOperator::Sort { .. } => Shape::Sorted,
            ProofOperator::PartialAggregate { group_by_json, .. } => if groups_by_keys(
                group_by_json,
            ) {
                Shape::Grouped
            } else {
                Shape::Plain
            },
            ProofOperator::MergeAggregate { group_by_json, .. } => if groups_by_keys(
                group_by_json,
            ) {
                Shape::Grouped
            } else {
                Shape::Plain
            },
            _ => Shape::Plain,
        };
        assert(shape == shape_of(*root_op));
        match shape {
            Shape::Sorted => {
                let unsorted: Vec<KeyedRow> = Self::keyed(&all_row_bytes, hash);
                trace.input_columns.push(ColumnTrace::new("__primary_in", Self::pick(&unsorted, 0)));
                trace.input_columns.push(
                    ColumnTrace::new("__secondary_in", Self::pick(&unsorted, 1)),
                );
                trace.input_columns.push(
                    ColumnTrace::new("__secondary_in_hi", Self::pick(&unsorted, 2)),
                );
                let ghost unsorted_v = unsorted@;
                let sorted: Vec<KeyedRow> = sort_rows(unsorted, descending);
                trace.columns.push(ColumnTrace::new("__primary_out", Self::pick(&sorted, 0)));
                trace.columns.push(ColumnTrace::new("__secondary_out", Self::pick(&sorted, 1)));
                trace.columns.push(ColumnTrace::new("__secondary_out_hi", Self::pick(&sorted, 2)));
                assert forall|h: FieldHash| #[trigger] computes(*hash, h) implies sorted_shape(
                    h,
                    rows,
                    descending,
                    trace.input_columns@,
                    trace.columns@,
                ) by {
                    assert(unsorted_v == keyed_rows(h, rows));
                    assert(component(unsorted_v, 0) =~= primaries(rows));
                    assert(component(unsorted_v, 1) =~= fingerprints(h, rows, 0));
                    assert(component(unsorted_v, 2) =~= fingerprints(h, rows, 1));
                    assert(sorted_rows(sorted@, descending));
                }
            },
            Shape::Grouped => {
                let unsorted: Vec<KeyedRow> = Self::keys_alone(&all_row_bytes);
                trace.input_columns.push(
                    ColumnTrace::new("__primary_in", Self::primary_column(&all_row_bytes)),
                );
                let ghost unsorted_v = unsorted@;
                let sorted: Vec<KeyedRow> = sort_rows(unsorted, false);
                trace.columns.push(ColumnTrace::new("__primary_out", Self::pick(&sorted, 0)));
                proof {
                    component_multiset(unsorted_v, sorted@);
                    assert(sorted_keys(component(sorted@, 0)));
                }
            },
            Shape::Plain => {
                trace.columns.push(
                    ColumnTrace::new("__primary", Self::primary_column(&all_row_bytes)),
                );
            },
        }
        trace.selected = Self::all_selected(n);
        trace.result_row_count = n as u64;
        let bytes: Vec<u8> = Self::all_bytes(&trace.columns);
        trace.result_commitment = blake3_hash(bytes.as_slice());
        Ok(trace)
    }
}

/// The keys of permuted rows are permuted keys.
proof fn component_multiset(s: Seq<KeyedRow>, t: Seq<KeyedRow>)
    requires
        s.to_multiset() == t.to_multiset(),
    ensures
        component(s, 0).to_multiset() == component(t, 0).to_multiset(),
{
    let key = |row: KeyedRow| row.0;
    mapped_permutation(s, t, key);
    assert(s.map_values(key) =~= component(s, 0));
    assert(t.map_values(key) =~= component(t, 0));
}

} // verus!
