//! The circuit for INNER JOIN, row by row.
//!
//! Private inputs: the left and the right keys, aligned so that matching keys
//! stand in the same row, the left values, a selector for each row, and a flag
//! for each row that says whether the row is real or padding. Public inputs:
//! `snap_lo` of the left keys, `qhash_lo`, sum and count over the matching
//! rows, `snap_lo` of the right keys, result commitment, number of rows that
//! do not match.

use vstd::prelude::*;

use crate::circuit::gadgets::column;
use crate::circuit::gadgets::column_targets;
use crate::circuit::gadgets::dot;
use crate::circuit::gadgets::total;
use crate::circuit::gadgets::total_of_flags;
use crate::circuit::inputs::front;
use crate::circuit::inputs::front_residues;
use crate::circuit::inputs::input_column;
use crate::circuit::inputs::push_all;
use crate::circuit::inputs::push_front;
use crate::circuit::inputs::rows_used;
use crate::circuit::inputs::CircuitWitness;
use crate::circuit::system::bit;
use crate::circuit::system::computes;
use crate::circuit::system::gather;
use crate::circuit::system::is_total;
use crate::circuit::system::ConstraintSystem;
use crate::circuit::system::FieldHash;
use crate::circuit::system::Target;
use crate::circuit::system::MAX_WIRES;
use crate::commitment::poseidon::padded;
use crate::commitment::poseidon::snap_lo;
use crate::commitment::poseidon::MAX_ROWS;
use crate::field::reduced_sum;
use crate::field::residue;
use crate::field::residues;
use crate::field::zero_difference;
use crate::field::MODULUS;

verus! {

/// The first wire of the left keys.
pub const JOIN_LEFT: usize = 0;

/// The first wire of the right keys.
pub const JOIN_RIGHT: usize = 128;

/// The first wire of the left values.
pub const JOIN_VALS: usize = 256;

/// The first wire of the selectors.
pub const JOIN_SELECTORS: usize = 384;

/// The first wire of the real-row flags.
pub const JOIN_REAL_FLAGS: usize = 512;

/// The wire of `snap_lo`.
pub const JOIN_SNAP: usize = 640;

/// The wire of `qhash_lo`.
pub const JOIN_QHASH: usize = 641;

/// The number of input wires.
pub const JOIN_INPUTS: usize = 642;

/// The private columns of a join circuit.
pub ghost struct JoinColumns {
    pub left: Seq<u64>,
    pub right: Seq<u64>,
    pub vals: Seq<u64>,
    pub selectors: Seq<u64>,
    pub flags: Seq<u64>,
}

/// What the circuit demands of one row: flags are boolean, a padding row has
/// no keys and is not selected, a selected row has equal keys, and a real row
/// with equal keys is selected.
pub open spec fn join_row(c: JoinColumns, i: int) -> bool {
    let s = c.selectors[i];
    let r = c.flags[i];
    &&& s <= 1
    &&& r <= 1
    &&& r == 0 ==> c.left[i] == 0 && c.right[i] == 0 && s == 0
    &&& s == 1 ==> c.left[i] == c.right[i]
    &&& r == 1 && c.left[i] == c.right[i] ==> s == 1
}

/// After the first padding row there are no more real rows.
pub open spec fn join_flags(c: JoinColumns, i: int) -> bool {
    c.flags[i] == 1 || c.flags[i + 1] == 0
}

/// What the circuit demands of its inputs.
pub open spec fn join_relation(h: FieldHash, c: JoinColumns, snap: u64) -> bool {
    &&& h(c.left)[0] == snap
    &&& forall|i: int| 0 <= i < MAX_ROWS ==> #[trigger] join_row(c, i)
    &&& forall|i: int| 0 <= i < MAX_ROWS - 1 ==> #[trigger] join_flags(c, i)
}

/// The public inputs that the circuit exposes.
pub open spec fn join_public(h: FieldHash, c: JoinColumns, snap: u64, qhash: u64) -> Seq<u64> {
    let n = MAX_ROWS as int;
    let sum = (dot(c.vals, c.selectors, n) % (MODULUS as int)) as u64;
    let count = (total(c.selectors, n) % (MODULUS as int)) as u64;
    let unmatched = ((n - total(c.selectors, n)) % (MODULUS as int)) as u64;
    seq![snap, qhash, sum, count, h(c.right)[0], h(seq![sum, count])[0], unmatched]
}

/// The columns that an assignment holds.
pub open spec fn join_columns(w: Seq<u64>) -> JoinColumns {
    JoinColumns {
        left: column(w, JOIN_LEFT, MAX_ROWS as nat),
        right: column(w, JOIN_RIGHT, MAX_ROWS as nat),
        vals: column(w, JOIN_VALS, MAX_ROWS as nat),
        selectors: column(w, JOIN_SELECTORS, MAX_ROWS as nat),
        flags: column(w, JOIN_REAL_FLAGS, MAX_ROWS as nat),
    }
}

/// The conditions of one row.
fn join_row_gates(b: &mut ConstraintSystem, i: usize, one: Target, zero: Target)
    requires
        old(b).wf(),
        JOIN_INPUTS <= old(b).n_wires <= MAX_WIRES - 17,
        i < MAX_ROWS,
        one < old(b).n_wires,
        zero < old(b).n_wires,
    ensures
        final(b).grows(*old(b), 16),
        forall|w: Seq<u64>, h: FieldHash| #[trigger]
            final(b).runs(w, h) ==> old(b).runs(w, h) && (w[one as int] == 1 && w[zero as int] == 0
                ==> (final(b).passes(w) <==> old(b).passes(w) && join_row(
                join_columns(w),
                i as int,
            ))),
{
    let left: Target = JOIN_LEFT + i;
    let right: Target = JOIN_RIGHT + i;
    let s: Target = JOIN_SELECTORS + i;
    let rf: Target = JOIN_REAL_FLAGS + i;
    b.assert_boolean(s, one, zero);
    b.assert_boolean(rf, one, zero);
    b.assert_zero_unless(rf, left, one, zero);
    b.assert_zero_unless(rf, right, one, zero);
    b.assert_zero_unless(rf, s, one, zero);
    // Soundness: a selected row has equal keys.
    let diff: Target = b.sub(left, right);
    b.assert_zero_product(s, diff, zero);
    // Completeness: a real row with equal keys is selected.
    let keys_eq: Target = b.is_equal(left, right);
    b.assert_equal_where(keys_eq, rf, s, one, zero);
    assert forall|w: Seq<u64>, h: FieldHash| #[trigger] b.runs(w, h) && w[one as int] == 1
        && w[zero as int] == 0 implies (b.passes(w) <==> old(b).passes(w) && join_row(
        join_columns(w),
        i as int,
    )) by {
        b.runs_canonical(w, h);
        zero_difference(w[left as int] as int, w[right as int] as int);
    }
}

/// Wires that hold the totals of the first `i` rows.
spec fn join_sums_hold(
    w: Seq<u64>,
    sum: Target,
    count: Target,
    unmatched: Target,
    i: int,
) -> bool {
    let c = join_columns(w);
    &&& w[sum as int] == dot(c.vals, c.selectors, i) % (MODULUS as int)
    &&& w[count as int] == total(c.selectors, i) % (MODULUS as int)
    &&& w[unmatched as int] == (i - total(c.selectors, i)) % (MODULUS as int)
}

/// Adds one row to the totals.
fn join_sum_gates(
    b: &mut ConstraintSystem,
    i: usize,
    one: Target,
    sum: Target,
    count: Target,
    unmatched: Target,
) -> (r: (Target, Target, Target))
    requires
        old(b).wf(),
        JOIN_INPUTS <= old(b).n_wires <= MAX_WIRES - 5,
        i < MAX_ROWS,
        one < old(b).n_wires,
        sum < old(b).n_wires,
        count < old(b).n_wires,
        unmatched < old(b).n_wires,
    ensures
        final(b).grows(*old(b), 5),
        r.0 < final(b).n_wires,
        r.1 < final(b).n_wires,
        r.2 < final(b).n_wires,
        forall|w: Seq<u64>, h: FieldHash| #[trigger]
            final(b).runs(w, h) ==> old(b).runs(w, h) && (w[one as int] == 1 && join_sums_hold(
                w,
                sum,
                count,
                unmatched,
                i as int,
            ) ==> join_sums_hold(w, r.0, r.1, r.2, i + 1)),
        forall|w: Seq<u64>| #[trigger] final(b).passes(w) <==> old(b).passes(w),
{
    let term: Target = b.mul(JOIN_VALS + i, JOIN_SELECTORS + i);
    let sum2: Target = b.add(sum, term);
    let count2: Target = b.add(count, JOIN_SELECTORS + i);
    let one_minus_s: Target = b.sub(one, JOIN_SELECTORS + i);
    let unmatched2: Target = b.add(unmatched, one_minus_s);
    assert forall|w: Seq<u64>, h: FieldHash| #[trigger] b.runs(w, h) && w[one as int] == 1
        && join_sums_hold(w, sum, count, unmatched, i as int) implies join_sums_hold(
        w,
        sum2,
        count2,
        unmatched2,
        i + 1,
    ) by {
        b.runs_canonical(w, h);
        let c = join_columns(w);
        let k = i as int;
        reduced_sum(dot(c.vals, c.selectors, k), c.vals[k] * c.selectors[k]);
        reduced_sum(total(c.selectors, k), c.selectors[k] as int);
        reduced_sum(k - total(c.selectors, k), 1 - c.selectors[k]);
    }
    (sum2, count2, unmatched2)
}

/// The circuit for INNER JOIN.
pub struct JoinCircuit {
    pub system: ConstraintSystem,
}

impl JoinCircuit {
    /// The system's assignments are those that the relation allows, and its
    /// public inputs are the ones that the relation determines.
    pub open spec fn wf(self) -> bool {
        &&& self.system.wf()
        &&& self.system.n_inputs == JOIN_INPUTS
        &&& forall|w: Seq<u64>, h: FieldHash| #[trigger]
            self.system.runs(w, h) ==> {
                let c = join_columns(w);
                let snap = w[JOIN_SNAP as int];
                let qhash = w[JOIN_QHASH as int];
                &&& self.system.passes(w) <==> join_relation(h, c, snap)
                &&& self.system.public_values(w) == join_public(h, c, snap, qhash)
            }
    }

    /// Builds the circuit.
    pub fn build() -> (c: JoinCircuit)
        ensures
            c.wf(),
    {
        let mut b: ConstraintSystem = ConstraintSystem::new(JOIN_INPUTS);
        // Binding: the first public input is the hash of the left keys.
        let h_left: Target = b.hash(column_targets(JOIN_LEFT, MAX_ROWS));
        b.connect(h_left, JOIN_SNAP);
        let zero: Target = b.constant(0);
        let one: Target = b.constant(1);
        let ghost base = b;
        assert forall|w: Seq<u64>, h: FieldHash| #[trigger] base.runs(w, h) implies {
            &&& w[one as int] == 1
            &&& w[zero as int] == 0
            &&& base.passes(w) <==> h(join_columns(w).left)[0] == w[JOIN_SNAP as int]
        } by {
            base.runs_canonical(w, h);
        }
        let mut sum: Target = zero;
        let mut count: Target = zero;
        let mut unmatched: Target = zero;
        let mut i: usize = 0;
        while i < MAX_ROWS
            invariant
                i <= MAX_ROWS,
                b.grows(base, (21 * i) as nat),
                JOIN_INPUTS <= base.n_wires <= 1000,
                one < base.n_wires,
                zero < base.n_wires,
                sum < b.n_wires,
                count < b.n_wires,
                unmatched < b.n_wires,
                forall|w: Seq<u64>, h: FieldHash| #[trigger]
                    base.runs(w, h) ==> w[one as int] == 1 && w[zero as int] == 0,
                forall|w: Seq<u64>, h: FieldHash| #[trigger]
                    b.runs(w, h) ==> base.runs(w, h) && join_sums_hold(
                        w,
                        sum,
                        count,
                        unmatched,
                        i as int,
                    ) && (b.passes(w) <==> base.passes(w) && forall|j: int|
                        0 <= j < i ==> #[trigger] join_row(join_columns(w), j)),
            decreases MAX_ROWS - i,
        {
            join_row_gates(&mut b, i, one, zero);
            let next: (Target, Target, Target) = join_sum_gates(
                &mut b,
                i,
                one,
                sum,
                count,
                unmatched,
            );
            sum = next.0;
            count = next.1;
            unmatched = next.2;
            i = i + 1;
        }
        let ghost rows = b;
        let mut i: usize = 0;
        while i < MAX_ROWS - 1
            invariant
                i <= MAX_ROWS - 1,
                b.grows(rows, (2 * i) as nat),
                JOIN_INPUTS <= rows.n_wires <= 10000,
                one < rows.n_wires,
                zero < rows.n_wires,
                forall|w: Seq<u64>, h: FieldHash| #[trigger]
                    rows.runs(w, h) ==> w[one as int] == 1 && w[zero as int] == 0,
                forall|w: Seq<u64>, h: FieldHash| #[trigger]
                    b.runs(w, h) ==> rows.runs(w, h) && (b.passes(w) <==> rows.passes(w)
                        && forall|j: int|
                        0 <= j < i ==> #[trigger] join_flags(join_columns(w), j)),
            decreases MAX_ROWS - 1 - i,
        {
            let ghost prev = b;
            b.assert_zero_unless(JOIN_REAL_FLAGS + i, JOIN_REAL_FLAGS + i + 1, one, zero);
            assert forall|w: Seq<u64>, h: FieldHash| #[trigger] b.runs(w, h) implies (b.passes(w)
                <==> prev.passes(w) && join_flags(join_columns(w), i as int)) by {
                b.runs_canonical(w, h);
                assert(prev.runs(w, h));
                assert(rows.runs(w, h));
            }
            i = i + 1;
        }
        let ghost checked = b;
        let h_right: Target = b.hash(column_targets(JOIN_RIGHT, MAX_ROWS));
        let mut result: Vec<Target> = Vec::new();
        result.push(sum);
        result.push(count);
        let result_hash: Target = b.hash(result);
        b.register_public_input(JOIN_SNAP);
        b.register_public_input(JOIN_QHASH);
        b.register_public_input(sum);
        b.register_public_input(count);
        b.register_public_input(h_right);
        b.register_public_input(result_hash);
        b.register_public_input(unmatched);
        let c: JoinCircuit = JoinCircuit { system: b };
        assert forall|w: Seq<u64>, h: FieldHash| #[trigger] c.system.runs(w, h) implies ({
            let cols = join_columns(w);
            let snap = w[JOIN_SNAP as int];
            let qhash = w[JOIN_QHASH as int];
            &&& c.system.passes(w) <==> join_relation(h, cols, snap)
            &&& c.system.public_values(w) == join_public(h, cols, snap, qhash)
        }) by {
            c.system.runs_canonical(w, h);
            assert(checked.runs(w, h));
            assert(rows.runs(w, h));
            assert(base.runs(w, h));
            assert(gather(w, result@) =~= seq![w[sum as int], w[count as int]]);
            assert(c.system.public_values(w) =~= join_public(
                h,
                join_columns(w),
                w[JOIN_SNAP as int],
                w[JOIN_QHASH as int],
            ));
        }
        c
    }
}

/// The selectors that the prover sets.
pub open spec fn selector_column(selected: Seq<bool>) -> Seq<u64> {
    Seq::new(MAX_ROWS as nat, |i: int| bit(i < selected.len() && selected[i]))
}

/// The number of real rows of a join: as many as the longer side has.
pub open spec fn join_rows_used(left: nat, right: nat) -> int {
    if left < right {
        rows_used(right)
    } else {
        rows_used(left)
    }
}

/// The columns that the prover sets.
pub open spec fn join_inputs(
    left: Seq<u64>,
    right: Seq<u64>,
    vals: Seq<u64>,
    selected: Seq<bool>,
) -> JoinColumns {
    JoinColumns {
        left: padded(left, MAX_ROWS as nat),
        right: padded(right, MAX_ROWS as nat),
        vals: padded(vals, MAX_ROWS as nat),
        selectors: selector_column(selected),
        flags: Seq::new(MAX_ROWS as nat, |i: int| bit(i < join_rows_used(left.len(), right.len()))),
    }
}

/// The rows of a join meet the relation.
pub open spec fn join_accepts(
    h: FieldHash,
    left: Seq<u64>,
    right: Seq<u64>,
    vals: Seq<u64>,
    selected: Seq<bool>,
    snap: u64,
) -> bool {
    join_relation(h, join_inputs(left, right, vals, selected), residue(snap))
}

/// The public inputs of a join.
pub open spec fn join_statement(
    h: FieldHash,
    left: Seq<u64>,
    right: Seq<u64>,
    vals: Seq<u64>,
    selected: Seq<bool>,
    snap: u64,
    qhash: u64,
) -> Seq<u64> {
    join_public(h, join_inputs(left, right, vals, selected), residue(snap), residue(qhash))
}

impl JoinCircuit {
    /// Assigns the circuit's wires. Fails where the left keys do not hash to
    /// `snap_lo`, or the selectors are not exactly the rows whose keys agree.
    pub fn prove<H: Fn(&Vec<u64>) -> [u64; 4]>(
        &self,
        left_keys: &[u64],
        right_keys: &[u64],
        left_vals: &[u64],
        selectors: &[bool],
        snap_lo: u64,
        qhash_lo: u64,
        hash: &H,
    ) -> (r: Result<CircuitWitness, String>)
        requires
            self.wf(),
            is_total(*hash),
        ensures
            forall|h: FieldHash| #[trigger]
                computes(*hash, h) ==> {
                    &&& r is Ok <==> join_accepts(
                        h,
                        left_keys@,
                        right_keys@,
                        left_vals@,
                        selectors@,
                        snap_lo,
                    )
                    &&& r matches Ok(p) ==> self.system.satisfied(p.wires@, h)
                        && p.public_inputs@ == join_statement(
                        h,
                        left_keys@,
                        right_keys@,
                        left_vals@,
                        selectors@,
                        snap_lo,
                        qhash_lo,
                    )
                },
            r matches Ok(p) ==> p.wires@.len() == self.system.n_wires && p.public_inputs@
                == self.system.public_values(p.wires@),
            r matches Err(e) ==> e@ == "join prove: constraints not satisfied"@,
    {
        let ghost cols = join_inputs(left_keys@, right_keys@, left_vals@, selectors@);
        let mut sel: Vec<u64> = Vec::new();
        let mut flags: Vec<u64> = Vec::new();
        let mut i: usize = 0;
        while i < MAX_ROWS
            invariant
                i <= MAX_ROWS,
                cols == join_inputs(left_keys@, right_keys@, left_vals@, selectors@),
                sel@.len() == i,
                flags@.len() == i,
                forall|k: int| 0 <= k < i ==> #[trigger] sel@[k] == cols.selectors[k],
                forall|k: int| 0 <= k < i ==> #[trigger] flags@[k] == cols.flags[k],
            decreases MAX_ROWS - i,
        {
            if i < selectors.len() && selectors[i] {
                sel.push(1);
            } else {
                sel.push(0);
            }
            if i < left_keys.len() || i < right_keys.len() {
                flags.push(1);
            } else {
                flags.push(0);
            }
            i = i + 1;
        }
        assert(sel@ =~= cols.selectors);
        assert(flags@ =~= cols.flags);
        let mut inputs: Vec<u64> = Vec::new();
        push_front(&mut inputs, left_keys);
        push_front(&mut inputs, right_keys);
        push_front(&mut inputs, left_vals);
        push_all(&mut inputs, &sel);
        push_all(&mut inputs, &flags);
        inputs.push(snap_lo);
        inputs.push(qhash_lo);
        let solved: (CircuitWitness, bool) = self.system.solve(&inputs, hash);
        proof {
            let w = solved.0.wires@;
            let n = JOIN_INPUTS as int;
            self.system.inputs_exist();
            assert(inputs@.subrange(0, 128) =~= front(left_keys@));
            assert(inputs@.subrange(128, 256) =~= front(right_keys@));
            assert(inputs@.subrange(256, 384) =~= front(left_vals@));
            assert(inputs@.subrange(384, 512) =~= sel@);
            assert(inputs@.subrange(512, 640) =~= flags@);
            input_column(w, inputs@, n, JOIN_LEFT, front(left_keys@));
            input_column(w, inputs@, n, JOIN_RIGHT, front(right_keys@));
            input_column(w, inputs@, n, JOIN_VALS, front(left_vals@));
            input_column(w, inputs@, n, JOIN_SELECTORS, sel@);
            input_column(w, inputs@, n, JOIN_REAL_FLAGS, flags@);
            front_residues(left_keys@);
            front_residues(right_keys@);
            front_residues(left_vals@);
            assert(residues(sel@) =~= sel@);
            assert(residues(flags@) =~= flags@);
            assert(join_columns(w) == cols);
        }
        if solved.1 {
            Ok(solved.0)
        } else {
            Err("join prove: constraints not satisfied".to_owned())
        }
    }
}

/// The join is determined by its keys: in an assignment that the circuit
/// accepts, a row is selected if and only if it is real and its keys agree.
pub proof fn join_rows_determined(h: FieldHash, c: JoinColumns, snap: u64, i: int)
    requires
        join_relation(h, c, snap),
        0 <= i < MAX_ROWS,
    ensures
        c.selectors[i] == bit(c.flags[i] == 1 && c.left[i] == c.right[i]),
        c.selectors[i] == 0 ==> c.flags[i] == 0 || c.left[i] != c.right[i],
{
    assert(join_row(c, i));
}

/// Matching and unmatched rows add up to all rows.
pub proof fn join_counts(h: FieldHash, c: JoinColumns, snap: u64, qhash: u64)
    requires
        c.selectors.len() == MAX_ROWS,
        join_relation(h, c, snap),
    ensures
        join_public(h, c, snap, qhash)[3] == total(c.selectors, MAX_ROWS as int),
        join_public(h, c, snap, qhash)[3] + join_public(h, c, snap, qhash)[6] == MAX_ROWS,
{
    assert forall|i: int| 0 <= i < MAX_ROWS implies #[trigger] c.selectors[i] <= 1 by {
        assert(join_row(c, i));
    }
    total_of_flags(c.selectors, MAX_ROWS as int);
}

/// On canonical keys a join is accepted if and only if `snap_lo` is the
/// commitment to the left keys, and the selected rows are exactly the real rows
/// whose keys agree, where a side that is shorter is padded with zeros.
pub proof fn join_complete(
    h: FieldHash,
    left: Seq<u64>,
    right: Seq<u64>,
    vals: Seq<u64>,
    selected: Seq<bool>,
    snap: u64,
)
    requires
        forall|i: int| 0 <= i < left.len() ==> #[trigger] left[i] < MODULUS,
        forall|i: int| 0 <= i < right.len() ==> #[trigger] right[i] < MODULUS,
        snap < MODULUS,
    ensures
        join_accepts(h, left, right, vals, selected, snap) <==> {
            &&& snap == snap_lo(h, MAX_ROWS as nat, left)
            &&& forall|i: int|
                0 <= i < MAX_ROWS ==> #[trigger] selector_column(selected)[i] == bit(
                    i < join_rows_used(left.len(), right.len()) && front(left)[i] == front(
                        right,
                    )[i],
                )
        },
{
    let c = join_inputs(left, right, vals, selected);
    let n = join_rows_used(left.len(), right.len());
    assert forall|i: int| 0 <= i < MAX_ROWS implies c.left[i] == front(left)[i] && c.right[i]
        == front(right)[i] && (#[trigger] join_row(c, i) <==> selector_column(selected)[i] == bit(
        i < n && front(left)[i] == front(right)[i],
    )) by {
        if i < left.len() {
            assert(left[i] < MODULUS);
        }
        if i < right.len() {
            assert(right[i] < MODULUS);
        }
    }
    if join_accepts(h, left, right, vals, selected, snap) {
        assert forall|i: int| 0 <= i < MAX_ROWS implies #[trigger] selector_column(selected)[i]
            == bit(i < n && front(left)[i] == front(right)[i]) by {
            assert(join_row(c, i));
        }
    }
}

} // verus!
