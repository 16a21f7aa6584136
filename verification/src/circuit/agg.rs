//! The circuit for COUNT, SUM and AVG.
//!
//! Private inputs: the row values, a selector for each row, and a flag for
//! each row that says whether the row is real or padding. Public inputs:
//! `snap_lo`, `qhash_lo`, sum, count, result commitment, predicate operator,
//! predicate value, number of real rows.

use vstd::prelude::*;

use crate::circuit::gadgets::column;
use crate::circuit::gadgets::column_targets;
use crate::circuit::gadgets::dot;
use crate::circuit::gadgets::total;
use crate::circuit::gadgets::total_of_flags;
use crate::circuit::gadgets::total_of_prefix;
use crate::circuit::inputs::front;
use crate::circuit::inputs::front_residues;
use crate::circuit::inputs::input_column;
use crate::circuit::inputs::push_all;
use crate::circuit::inputs::push_front;
use crate::circuit::inputs::rows_used;
use crate::circuit::inputs::CircuitWitness;
use crate::circuit::system::bit;
use crate::circuit::system::computes;
use crate::circuit::system::gather;
use crate::circuit::system::is_total;
use crate::circuit::system::ConstraintSystem;
use crate::circuit::system::FieldHash;
use crate::circuit::system::Target;
use crate::circuit::system::MAX_WIRES;
use crate::commitment::poseidon::padded;
use crate::commitment::poseidon::snap_lo;
use crate::commitment::poseidon::MAX_ROWS;
use crate::field::reduced_sum;
use crate::field::residue;
use crate::field::residues;
use crate::field::MODULUS;

verus! {

/// The first wire of the row values.
pub const AGG_VALUES: usize = 0;

/// The first wire of the selectors.
pub const AGG_SELECTORS: usize = 128;

/// The first wire of the real-row flags.
pub const AGG_REAL_FLAGS: usize = 256;

/// The wire of `snap_lo`.
pub const AGG_SNAP: usize = 384;

/// The wire of `qhash_lo`.
pub const AGG_QHASH: usize = 385;

/// The wire of the predicate operator.
pub const AGG_PRED_OP: usize = 386;

/// The wire of the predicate value.
pub const AGG_PRED_VAL: usize = 387;

/// The number of input wires.
pub const AGG_INPUTS: usize = 388;

/// Whether a value meets the predicate: operator 0 is no predicate, 1 is `=`,
/// 2 is `<` and 3 is `>`.
pub open spec fn pred_bit(op: u64, v: u64, pred_val: u64) -> u64 {
    if op == 0 {
        1
    } else if op == 1 {
        bit(v == pred_val)
    } else if op == 2 {
        bit(v < pred_val)
    } else {
        bit(v > pred_val)
    }
}

/// What the circuit demands of one row: flags are boolean, a padding row is
/// zero and not selected, and a real row is selected exactly by the predicate.
pub open spec fn agg_row(v: u64, s: u64, r: u64, op: u64, pred_val: u64) -> bool {
    &&& s <= 1
    &&& r <= 1
    &&& r == 0 ==> v == 0 && s == 0
    &&& r == 1 ==> s == pred_bit(op, v, pred_val)
}

/// What the circuit demands of its inputs.
pub open spec fn agg_relation(
    h: FieldHash,
    v: Seq<u64>,
    s: Seq<u64>,
    r: Seq<u64>,
    snap: u64,
    op: u64,
    pred_val: u64,
) -> bool {
    &&& h(v)[0] == snap
    &&& op <= 3
    &&& forall|i: int| 0 <= i < MAX_ROWS ==> agg_row(#[trigger] v[i], s[i], r[i], op, pred_val)
    &&& forall|i: int| 0 <= i < MAX_ROWS - 1 ==> (#[trigger] r[i] == 1 || r[i + 1] == 0)
}

/// The public inputs that the circuit exposes.
pub open spec fn agg_public(
    h: FieldHash,
    v: Seq<u64>,
    s: Seq<u64>,
    r: Seq<u64>,
    snap: u64,
    qhash: u64,
    op: u64,
    pred_val: u64,
) -> Seq<u64> {
    let sum = (dot(v, s, MAX_ROWS as int) % (MODULUS as int)) as u64;
    let count = (total(s, MAX_ROWS as int) % (MODULUS as int)) as u64;
    let n_real = (total(r, MAX_ROWS as int) % (MODULUS as int)) as u64;
    seq![snap, qhash, sum, count, h(seq![sum, count])[0], op, pred_val, n_real]
}

/// Wires that the row gates share.
#[derive(Clone, Copy)]
struct AggWires {
    zero: Target,
    one: Target,
    op_is_none: Target,
    op_is_eq: Target,
    op_is_lt: Target,
    op_is_gt: Target,
}

impl AggWires {
    spec fn below(self, n: usize) -> bool {
        &&& self.zero < n
        &&& self.one < n
        &&& self.op_is_none < n
        &&& self.op_is_eq < n
        &&& self.op_is_lt < n
        &&& self.op_is_gt < n
    }

    spec fn hold(self, w: Seq<u64>) -> bool {
        &&& w[self.zero as int] == 0
        &&& w[self.one as int] == 1
        &&& w[self.op_is_none as int] == bit(w[AGG_PRED_OP as int] == 0)
        &&& w[self.op_is_eq as int] == bit(w[AGG_PRED_OP as int] == 1)
        &&& w[self.op_is_lt as int] == bit(w[AGG_PRED_OP as int] == 2)
        &&& w[self.op_is_gt as int] == bit(w[AGG_PRED_OP as int] == 3)
    }
}

/// The row condition on the wires of row `i`, where the operator is one of the
/// four.
spec fn row_holds(w: Seq<u64>, i: int) -> bool {
    let v = w[AGG_VALUES + i];
    let s = w[AGG_SELECTORS + i];
    let r = w[AGG_REAL_FLAGS + i];
    let op = w[AGG_PRED_OP as int];
    &&& s <= 1
    &&& r <= 1
    &&& r == 0 ==> v == 0 && s == 0
    &&& r == 1 && op <= 3 ==> s == pred_bit(op, v, w[AGG_PRED_VAL as int])
}

/// Wires that hold the running totals of the first `i` rows.
spec fn sums_hold(w: Seq<u64>, sum: Target, count: Target, n_real: Target, i: int) -> bool {
    let v = column(w, AGG_VALUES, MAX_ROWS as nat);
    let s = column(w, AGG_SELECTORS, MAX_ROWS as nat);
    let r = column(w, AGG_REAL_FLAGS, MAX_ROWS as nat);
    &&& w[sum as int] == dot(v, s, i) % (MODULUS as int)
    &&& w[count as int] == total(s, i) % (MODULUS as int)
    &&& w[n_real as int] == total(r, i) % (MODULUS as int)
}

/// The condition that ties the flags of rows `i` and `i + 1`.
spec fn flags_hold(w: Seq<u64>, i: int) -> bool {
    w[AGG_REAL_FLAGS + i] == 1 || w[AGG_REAL_FLAGS + i + 1] == 0
}

/// Binds a row's selector to the predicate, where the row is real.
fn predicate_gates(b: &mut ConstraintSystem, k: AggWires, v: Target, s: Target, rf: Target)
    requires
        old(b).wf(),
        AGG_INPUTS <= old(b).n_wires <= MAX_WIRES - 563,
        k.below(old(b).n_wires),
        v < old(b).n_wires,
        s < old(b).n_wires,
        rf < old(b).n_wires,
    ensures
        final(b).grows(*old(b), 563),
        forall|w: Seq<u64>, h: FieldHash| #[trigger]
            final(b).runs(w, h) ==> old(b).runs(w, h) && (k.hold(w) ==> (final(b).passes(w)
                <==> old(b).passes(w) && (w[rf as int] == 0 || w[AGG_PRED_OP as int] > 3
                || w[s as int] == pred_bit(
                w[AGG_PRED_OP as int],
                w[v as int],
                w[AGG_PRED_VAL as int],
            )))),
{
    let is_val_eq: Target = b.is_equal(v, AGG_PRED_VAL);
    let is_val_lt: Target = b.is_less_than(v, AGG_PRED_VAL, k.one);
    let is_val_gt: Target = b.is_less_than(AGG_PRED_VAL, v, k.one);
    // op = none: real rows must all be selected.
    b.assert_equal_where(k.op_is_none, rf, s, k.one, k.zero);
    // op = eq, lt, gt: real rows are selected exactly where the value compares so.
    b.assert_equal_where(k.op_is_eq, rf, s, is_val_eq, k.zero);
    b.assert_equal_where(k.op_is_lt, rf, s, is_val_lt, k.zero);
    b.assert_equal_where(k.op_is_gt, rf, s, is_val_gt, k.zero);
}

/// All gates of one row but the sums.
fn row_gates(b: &mut ConstraintSystem, k: AggWires, i: usize)
    requires
        old(b).wf(),
        AGG_INPUTS <= old(b).n_wires <= MAX_WIRES - 571,
        k.below(old(b).n_wires),
        i < MAX_ROWS,
    ensures
        final(b).grows(*old(b), 571),
        forall|w: Seq<u64>, h: FieldHash| #[trigger]
            final(b).runs(w, h) ==> old(b).runs(w, h) && (k.hold(w) ==> (final(b).passes(w)
                <==> old(b).passes(w) && row_holds(w, i as int))),
{
    let v: Target = AGG_VALUES + i;
    let s: Target = AGG_SELECTORS + i;
    let rf: Target = AGG_REAL_FLAGS + i;
    b.assert_boolean(rf, k.one, k.zero);
    b.assert_zero_unless(rf, v, k.one, k.zero);
    b.assert_boolean(s, k.one, k.zero);
    b.assert_zero_unless(rf, s, k.one, k.zero);
    predicate_gates(b, k, v, s, rf);
}

/// Adds one row to the running totals.
fn sum_gates(
    b: &mut ConstraintSystem,
    i: usize,
    sum: Target,
    count: Target,
    n_real: Target,
) -> (r: (Target, Target, Target))
    requires
        old(b).wf(),
        AGG_INPUTS <= old(b).n_wires <= MAX_WIRES - 4,
        i < MAX_ROWS,
        sum < old(b).n_wires,
        count < old(b).n_wires,
        n_real < old(b).n_wires,
    ensures
        final(b).grows(*old(b), 4),
        r.0 < final(b).n_wires,
        r.1 < final(b).n_wires,
        r.2 < final(b).n_wires,
        forall|w: Seq<u64>, h: FieldHash| #[trigger]
            final(b).runs(w, h) ==> old(b).runs(w, h) && (sums_hold(w, sum, count, n_real, i as int)
                ==> sums_hold(w, r.0, r.1, r.2, i + 1)),
        forall|w: Seq<u64>| #[trigger] final(b).passes(w) <==> old(b).passes(w),
{
    let term: Target = b.mul(AGG_VALUES + i, AGG_SELECTORS + i);
    let sum2: Target = b.add(sum, term);
    let count2: Target = b.add(count, AGG_SELECTORS + i);
    let n_real2: Target = b.add(n_real, AGG_REAL_FLAGS + i);
    assert forall|w: Seq<u64>, h: FieldHash| #[trigger] b.runs(w, h) && sums_hold(
        w,
        sum,
        count,
        n_real,
        i as int,
    ) implies sums_hold(w, sum2, count2, n_real2, i + 1) by {
        b.runs_canonical(w, h);
        let v = column(w, AGG_VALUES, MAX_ROWS as nat);
        let s = column(w, AGG_SELECTORS, MAX_ROWS as nat);
        let r = column(w, AGG_REAL_FLAGS, MAX_ROWS as nat);
        reduced_sum(dot(v, s, i as int), v[i as int] * s[i as int]);
        reduced_sum(total(s, i as int), s[i as int] as int);
        reduced_sum(total(r, i as int), r[i as int] as int);
    }
    (sum2, count2, n_real2)
}

/// The circuit for COUNT, SUM and AVG.
pub struct AggCircuit {
    pub system: ConstraintSystem,
}

impl AggCircuit {
    /// The system's assignments are those that the relation allows, and its
    /// public inputs are the ones that the relation determines.
    pub open spec fn wf(self) -> bool {
        &&& self.system.wf()
        &&& self.system.n_inputs == AGG_INPUTS
        &&& forall|w: Seq<u64>, h: FieldHash| #[trigger]
            self.system.runs(w, h) ==> {
                let v = column(w, AGG_VALUES, MAX_ROWS as nat);
                let s = column(w, AGG_SELECTORS, MAX_ROWS as nat);
                let r = column(w, AGG_REAL_FLAGS, MAX_ROWS as nat);
                let snap = w[AGG_SNAP as int];
                let qhash = w[AGG_QHASH as int];
                let op = w[AGG_PRED_OP as int];
                let pred_val = w[AGG_PRED_VAL as int];
                &&& self.system.passes(w) <==> agg_relation(h, v, s, r, snap, op, pred_val)
                &&& self.system.public_values(w) == agg_public(
                    h,
                    v,
                    s,
                    r,
                    snap,
                    qhash,
                    op,
                    pred_val,
                )
            }
    }

    /// Builds the circuit.
    pub fn build() -> (c: AggCircuit)
        ensures
            c.wf(),
    {
        let mut b: ConstraintSystem = ConstraintSystem::new(AGG_INPUTS);
        // Binding: the first public input is the hash of the values.
        let values_t: Vec<Target> = column_targets(AGG_VALUES, MAX_ROWS);
        let hash_out: Target = b.hash(values_t);
        b.connect(hash_out, AGG_SNAP);
        let zero: Target = b.constant(0);
        let one: Target = b.constant(1);
        let two: Target = b.constant(2);
        let three: Target = b.constant(3);
        let op_is_none: Target = b.is_equal(AGG_PRED_OP, zero);
        let op_is_eq: Target = b.is_equal(AGG_PRED_OP, one);
        let op_is_lt: Target = b.is_equal(AGG_PRED_OP, two);
        let op_is_gt: Target = b.is_equal(AGG_PRED_OP, three);
        // The operator must be one of the four.
        let valid_op_01: Target = b.add(op_is_none, op_is_eq);
        let valid_op_23: Target = b.add(op_is_lt, op_is_gt);
        let valid_op: Target = b.add(valid_op_01, valid_op_23);
        b.connect(valid_op, one);
        let k: AggWires = AggWires { zero, one, op_is_none, op_is_eq, op_is_lt, op_is_gt };
        let ghost base = b;
        assert forall|w: Seq<u64>, h: FieldHash| #[trigger] base.runs(w, h) implies k.hold(w) && (
        base.passes(w) <==> h(column(w, AGG_VALUES, MAX_ROWS as nat))[0] == w[AGG_SNAP as int]
            && w[AGG_PRED_OP as int] <= 3) by {
            base.runs_canonical(w, h);
        }
        let mut sum: Target = zero;
        let mut count: Target = zero;
        let mut n_real: Target = zero;
        let mut i: usize = 0;
        while i < MAX_ROWS
            invariant
                i <= MAX_ROWS,
                b.wf(),
                b.n_inputs == AGG_INPUTS,
                b.public_inputs@.len() == 0,
                AGG_INPUTS <= b.n_wires,
                b.n_wires == base.n_wires + 575 * i,
                base.n_wires <= 1000,
                k.below(b.n_wires),
                sum < b.n_wires,
                count < b.n_wires,
                n_real < b.n_wires,
                forall|w: Seq<u64>, h: FieldHash| #[trigger]
                    base.runs(w, h) ==> k.hold(w),
                forall|w: Seq<u64>, h: FieldHash| #[trigger]
                    b.runs(w, h) ==> base.runs(w, h) && sums_hold(w, sum, count, n_real, i as int),
                forall|w: Seq<u64>, h: FieldHash| #[trigger]
                    b.runs(w, h) ==> (b.passes(w) <==> base.passes(w) && forall|j: int|
                        0 <= j < i ==> #[trigger] row_holds(w, j)),
            decreases MAX_ROWS - i,
        {
            row_gates(&mut b, k, i);
            let next: (Target, Target, Target) = sum_gates(&mut b, i, sum, count, n_real);
            sum = next.0;
            count = next.1;
            n_real = next.2;
            i = i + 1;
        }
        let ghost rows = b;
        // Once a flag is zero, the later flags are zero.
        let mut i: usize = 0;
        while i < MAX_ROWS - 1
            invariant
                i <= MAX_ROWS - 1,
                b.wf(),
                b.n_inputs == AGG_INPUTS,
                b.public_inputs@.len() == 0,
                AGG_INPUTS <= b.n_wires,
                b.n_wires == rows.n_wires + 2 * i,
                rows.n_wires <= 100000,
                k.below(b.n_wires),
                sum < b.n_wires,
                count < b.n_wires,
                n_real < b.n_wires,
                forall|w: Seq<u64>, h: FieldHash| #[trigger]
                    base.runs(w, h) ==> k.hold(w),
                forall|w: Seq<u64>, h: FieldHash| #[trigger]
                    rows.runs(w, h) ==> base.runs(w, h),
                forall|w: Seq<u64>, h: FieldHash| #[trigger]
                    b.runs(w, h) ==> rows.runs(w, h) && (b.passes(w) <==> rows.passes(w)
                        && forall|j: int| 0 <= j < i ==> #[trigger] flags_hold(w, j)),
            decreases MAX_ROWS - 1 - i,
        {
            let ghost prev = b;
            b.assert_zero_unless(AGG_REAL_FLAGS + i, AGG_REAL_FLAGS + i + 1, k.one, k.zero);
            assert forall|w: Seq<u64>, h: FieldHash| #[trigger] b.runs(w, h) implies (b.passes(w)
                <==> prev.passes(w) && flags_hold(w, i as int)) by {
                assert(prev.runs(w, h));
                assert(k.hold(w));
            }
            i = i + 1;
        }
        let ghost checked = b;
        // The result commitment is the hash of sum and count.
        let mut result: Vec<Target> = Vec::new();
        result.push(sum);
        result.push(count);
        let result_hash: Target = b.hash(result);
        b.register_public_input(AGG_SNAP);
        b.register_public_input(AGG_QHASH);
        b.register_public_input(sum);
        b.register_public_input(count);
        b.register_public_input(result_hash);
        b.register_public_input(AGG_PRED_OP);
        b.register_public_input(AGG_PRED_VAL);
        b.register_public_input(n_real);
        let c: AggCircuit = AggCircuit { system: b };
        assert forall|w: Seq<u64>, h: FieldHash| #[trigger] c.system.runs(w, h) implies ({
            let v = column(w, AGG_VALUES, MAX_ROWS as nat);
            let s = column(w, AGG_SELECTORS, MAX_ROWS as nat);
            let r = column(w, AGG_REAL_FLAGS, MAX_ROWS as nat);
            let snap = w[AGG_SNAP as int];
            let qhash = w[AGG_QHASH as int];
            let op = w[AGG_PRED_OP as int];
            let pred_val = w[AGG_PRED_VAL as int];
            &&& c.system.passes(w) <==> agg_relation(h, v, s, r, snap, op, pred_val)
            &&& c.system.public_values(w) == agg_public(h, v, s, r, snap, qhash, op, pred_val)
        }) by {
            c.system.runs_canonical(w, h);
            assert(checked.runs(w, h));
            assert(rows.runs(w, h));
            assert(base.runs(w, h));
            let v = column(w, AGG_VALUES, MAX_ROWS as nat);
            let s = column(w, AGG_SELECTORS, MAX_ROWS as nat);
            let r = column(w, AGG_REAL_FLAGS, MAX_ROWS as nat);
            let snap = w[AGG_SNAP as int];
            let qhash = w[AGG_QHASH as int];
            let op = w[AGG_PRED_OP as int];
            let pred_val = w[AGG_PRED_VAL as int];
            assert(gather(w, result@) =~= seq![w[sum as int], w[count as int]]);
            assert(c.system.public_values(w) =~= agg_public(
                h,
                v,
                s,
                r,
                snap,
                qhash,
                op,
                pred_val,
            ));
            agg_columns(h, w);
        }
        c
    }
}

/// The row conditions on wires are the relation on columns.
proof fn agg_columns(h: FieldHash, w: Seq<u64>)
    requires
        AGG_INPUTS <= w.len(),
    ensures
        ({
            let v = column(w, AGG_VALUES, MAX_ROWS as nat);
            let s = column(w, AGG_SELECTORS, MAX_ROWS as nat);
            let r = column(w, AGG_REAL_FLAGS, MAX_ROWS as nat);
            let snap = w[AGG_SNAP as int];
            let op = w[AGG_PRED_OP as int];
            let pred_val = w[AGG_PRED_VAL as int];
            agg_relation(h, v, s, r, snap, op, pred_val) <==> {
                &&& h(v)[0] == snap
                &&& op <= 3
                &&& forall|j: int| 0 <= j < MAX_ROWS ==> #[trigger] row_holds(w, j)
                &&& forall|j: int| 0 <= j < MAX_ROWS - 1 ==> #[trigger] flags_hold(w, j)
            }
        }),
{
    let v = column(w, AGG_VALUES, MAX_ROWS as nat);
    let s = column(w, AGG_SELECTORS, MAX_ROWS as nat);
    let r = column(w, AGG_REAL_FLAGS, MAX_ROWS as nat);
    let op = w[AGG_PRED_OP as int];
    let pred_val = w[AGG_PRED_VAL as int];
    if op <= 3 {
        assert forall|j: int| 0 <= j < MAX_ROWS implies #[trigger] row_holds(w, j) == agg_row(
            v[j],
            s[j],
            r[j],
            op,
            pred_val,
        ) by {}
        assert forall|j: int| 0 <= j < MAX_ROWS - 1 implies #[trigger] flags_hold(w, j) == (r[j]
            == 1 || r[j + 1] == 0) by {}
        if forall|j: int| 0 <= j < MAX_ROWS ==> #[trigger] row_holds(w, j) {
            assert forall|i: int| 0 <= i < MAX_ROWS implies agg_row(
                #[trigger] v[i],
                s[i],
                r[i],
                op,
                pred_val,
            ) by {
                assert(row_holds(w, i));
            }
        }
        if forall|j: int| 0 <= j < MAX_ROWS - 1 ==> #[trigger] flags_hold(w, j) {
            assert forall|i: int| 0 <= i < MAX_ROWS - 1 implies (#[trigger] r[i] == 1 || r[i + 1]
                == 0) by {
                assert(flags_hold(w, i));
            }
        }
        if forall|i: int| 0 <= i < MAX_ROWS - 1 ==> (#[trigger] r[i] == 1 || r[i + 1] == 0) {
            assert forall|j: int| 0 <= j < MAX_ROWS - 1 implies #[trigger] flags_hold(w, j) by {
                assert(r[j] == 1 || r[j + 1] == 0);
            }
        }
    }
}


/// The selector that the prover sets for a real row. Words are compared as
/// they are, before they are taken into the field.
pub open spec fn native_pred(op: u64, v: u64, pred_val: u64) -> u64 {
    if op == 0 {
        1
    } else if op == 1 {
        bit(v == pred_val)
    } else if op == 2 {
        bit(v < pred_val)
    } else if op == 3 {
        bit(v > pred_val)
    } else {
        0
    }
}

/// The selectors that the prover sets.
pub open spec fn agg_selectors(values: Seq<u64>, op: u64, pred_val: u64) -> Seq<u64> {
    Seq::new(
        MAX_ROWS as nat,
        |i: int|
            if i < values.len() {
                native_pred(op, values[i], pred_val)
            } else {
                0
            },
    )
}

/// The real-row flags that the prover sets.
pub open spec fn agg_flags(values: Seq<u64>) -> Seq<u64> {
    Seq::new(MAX_ROWS as nat, |i: int| bit(i < values.len()))
}

/// The inputs that a query gives rise to meet the relation.
pub open spec fn agg_accepts(
    h: FieldHash,
    values: Seq<u64>,
    snap_lo: u64,
    op: u64,
    pred_val: u64,
) -> bool {
    agg_relation(
        h,
        padded(values, MAX_ROWS as nat),
        agg_selectors(values, op, pred_val),
        agg_flags(values),
        residue(snap_lo),
        residue(op),
        residue(pred_val),
    )
}

/// The public inputs of a query.
pub open spec fn agg_statement(
    h: FieldHash,
    values: Seq<u64>,
    snap_lo: u64,
    qhash_lo: u64,
    op: u64,
    pred_val: u64,
) -> Seq<u64> {
    agg_public(
        h,
        padded(values, MAX_ROWS as nat),
        agg_selectors(values, op, pred_val),
        agg_flags(values),
        residue(snap_lo),
        residue(qhash_lo),
        residue(op),
        residue(pred_val),
    )
}

/// Computes the selector of a real row.
fn select(op: u64, v: u64, pred_val: u64) -> (r: u64)
    ensures
        r == native_pred(op, v, pred_val),
{
    let sel: bool = match op {
        0 => true,
        1 => v == pred_val,
        2 => v < pred_val,
        3 => v > pred_val,
        _ => false,
    };
    if sel {
        1
    } else {
        0
    }
}

impl AggCircuit {
    /// Assigns the circuit's wires for a query. Selectors are determined by
    /// the predicate. Fails where the values do not hash to `snap_lo`, or the
    /// operator is none of the four, or a word that is not canonical compares
    /// otherwise than its residue.
    pub fn prove<H: Fn(&Vec<u64>) -> [u64; 4]>(
        &self,
        values: &[u64],
        snap_lo: u64,
        qhash_lo: u64,
        pred_op: u64,
        pred_val: u64,
        hash: &H,
    ) -> (r: Result<CircuitWitness, String>)
        requires
            self.wf(),
            is_total(*hash),
        ensures
            forall|h: FieldHash| #[trigger]
                computes(*hash, h) ==> {
                    &&& r is Ok <==> agg_accepts(h, values@, snap_lo, pred_op, pred_val)
                    &&& r matches Ok(p) ==> self.system.satisfied(p.wires@, h)
                        && p.public_inputs@ == agg_statement(
                        h,
                        values@,
                        snap_lo,
                        qhash_lo,
                        pred_op,
                        pred_val,
                    )
                },
            r matches Ok(p) ==> p.wires@.len() == self.system.n_wires && p.public_inputs@
                == self.system.public_values(p.wires@),
            r matches Err(e) ==> e@ == "agg prove: constraints not satisfied"@,
    {
        let mut selectors: Vec<u64> = Vec::new();
        let mut flags: Vec<u64> = Vec::new();
        let mut i: usize = 0;
        while i < MAX_ROWS
            invariant
                i <= MAX_ROWS,
                selectors@.len() == i,
                flags@.len() == i,
                forall|k: int|
                    0 <= k < i ==> #[trigger] selectors@[k] == agg_selectors(
                        values@,
                        pred_op,
                        pred_val,
                    )[k],
                forall|k: int| 0 <= k < i ==> #[trigger] flags@[k] == agg_flags(values@)[k],
            decreases MAX_ROWS - i,
        {
            if i < values.len() {
                selectors.push(select(pred_op, values[i], pred_val));
                flags.push(1);
            } else {
                selectors.push(0);
                flags.push(0);
            }
            i = i + 1;
        }
        assert(selectors@ =~= agg_selectors(values@, pred_op, pred_val));
        assert(flags@ =~= agg_flags(values@));
        let mut inputs: Vec<u64> = Vec::new();
        push_front(&mut inputs, values);
        push_all(&mut inputs, &selectors);
        push_all(&mut inputs, &flags);
        inputs.push(snap_lo);
        inputs.push(qhash_lo);
        inputs.push(pred_op);
        inputs.push(pred_val);
        let solved: (CircuitWitness, bool) = self.system.solve(&inputs, hash);
        proof {
            let w = solved.0.wires@;
            let n = AGG_INPUTS as int;
            self.system.inputs_exist();
            assert(inputs@.subrange(0, 128) =~= front(values@));
            assert(inputs@.subrange(128, 256) =~= selectors@);
            assert(inputs@.subrange(256, 384) =~= flags@);
            input_column(w, inputs@, n, AGG_VALUES, front(values@));
            input_column(w, inputs@, n, AGG_SELECTORS, selectors@);
            input_column(w, inputs@, n, AGG_REAL_FLAGS, flags@);
            front_residues(values@);
            assert(residues(selectors@) =~= selectors@);
            assert(residues(flags@) =~= flags@);
            assert forall|h: FieldHash| #[trigger] computes(*hash, h) implies (solved.1
                <==> agg_accepts(h, values@, snap_lo, pred_op, pred_val)) by {
                assert(self.system.runs(w, h));
            }
        }
        if solved.1 {
            Ok(solved.0)
        } else {
            Err("agg prove: constraints not satisfied".to_owned())
        }
    }
}

/// The prover has no discretion: in an assignment that the circuit accepts,
/// the flags mark a prefix of `n` rows as real, a real row is selected exactly
/// by the predicate, and every other row is zero and not selected.
pub proof fn agg_rows_determined(
    h: FieldHash,
    v: Seq<u64>,
    s: Seq<u64>,
    r: Seq<u64>,
    snap: u64,
    op: u64,
    pred_val: u64,
) -> (n: int)
    requires
        r.len() == MAX_ROWS,
        agg_relation(h, v, s, r, snap, op, pred_val),
    ensures
        0 <= n <= MAX_ROWS,
        n == total(r, MAX_ROWS as int),
        forall|i: int| 0 <= i < MAX_ROWS ==> #[trigger] r[i] == bit(i < n),
        forall|i: int|
            0 <= i < n ==> #[trigger] s[i] == pred_bit(op, v[i], pred_val),
        forall|i: int| n <= i < MAX_ROWS ==> #[trigger] s[i] == 0,
        forall|i: int| n <= i < MAX_ROWS ==> #[trigger] v[i] == 0,
{
    assert forall|i: int| 0 <= i < MAX_ROWS implies #[trigger] r[i] <= 1 by {
        assert(agg_row(v[i], s[i], r[i], op, pred_val));
    }
    let n = real_prefix(r, 0);
    total_of_prefix(r, MAX_ROWS as int, n);
    assert forall|i: int| 0 <= i < n implies #[trigger] s[i] == pred_bit(op, v[i], pred_val) by {
        assert(agg_row(v[i], s[i], r[i], op, pred_val));
        assert(r[i] == bit(i < n));
    }
    assert forall|i: int| n <= i < MAX_ROWS implies #[trigger] s[i] == 0 by {
        assert(agg_row(v[i], s[i], r[i], op, pred_val));
        assert(r[i] == bit(i < n));
    }
    assert forall|i: int| n <= i < MAX_ROWS implies #[trigger] v[i] == 0 by {
        assert(agg_row(v[i], s[i], r[i], op, pred_val));
        assert(r[i] == bit(i < n));
    }
    n
}

/// Where the flags stop, if those before `k` are set.
proof fn real_prefix(r: Seq<u64>, k: int) -> (n: int)
    requires
        0 <= k <= MAX_ROWS,
        r.len() == MAX_ROWS,
        forall|i: int| 0 <= i < MAX_ROWS ==> #[trigger] r[i] <= 1,
        forall|i: int| 0 <= i < k ==> #[trigger] r[i] == 1,
        forall|i: int| 0 <= i < MAX_ROWS - 1 ==> (#[trigger] r[i] == 1 || r[i + 1] == 0),
    ensures
        k <= n <= MAX_ROWS,
        forall|i: int| 0 <= i < MAX_ROWS ==> #[trigger] r[i] == bit(i < n),
    decreases MAX_ROWS - k,
{
    if k == MAX_ROWS {
        k
    } else if r[k] == 1 {
        real_prefix(r, k + 1)
    } else {
        zeros_stay(r, k, MAX_ROWS as int);
        k
    }
}

/// From a zero on, the flags are zero.
proof fn zeros_stay(r: Seq<u64>, k: int, m: int)
    requires
        0 <= k < m <= MAX_ROWS,
        r.len() == MAX_ROWS,
        r[k] == 0,
        forall|i: int| 0 <= i < MAX_ROWS - 1 ==> (#[trigger] r[i] == 1 || r[i + 1] == 0),
    ensures
        forall|i: int| k <= i < m ==> #[trigger] r[i] == 0,
    decreases m,
{
    if k < m - 1 {
        zeros_stay(r, k, m - 1);
        assert(r[m - 2] == 0);
    }
}

/// COUNT and SUM are determined by the rows: two assignments that the circuit
/// accepts, over the same values, the same predicate and the same number of
/// real rows, expose the same public inputs.
pub proof fn agg_result_unique(
    h: FieldHash,
    v: Seq<u64>,
    s1: Seq<u64>,
    r1: Seq<u64>,
    s2: Seq<u64>,
    r2: Seq<u64>,
    snap: u64,
    qhash: u64,
    op: u64,
    pred_val: u64,
)
    requires
        s1.len() == MAX_ROWS,
        r1.len() == MAX_ROWS,
        s2.len() == MAX_ROWS,
        r2.len() == MAX_ROWS,
        agg_relation(h, v, s1, r1, snap, op, pred_val),
        agg_relation(h, v, s2, r2, snap, op, pred_val),
        total(r1, MAX_ROWS as int) == total(r2, MAX_ROWS as int),
    ensures
        s1 == s2,
        r1 == r2,
        agg_public(h, v, s1, r1, snap, qhash, op, pred_val) == agg_public(
            h,
            v,
            s2,
            r2,
            snap,
            qhash,
            op,
            pred_val,
        ),
{
    let n1 = agg_rows_determined(h, v, s1, r1, snap, op, pred_val);
    let n2 = agg_rows_determined(h, v, s2, r2, snap, op, pred_val);
    assert(n1 == n2);
    assert forall|i: int| 0 <= i < MAX_ROWS implies s1[i] == s2[i] && r1[i] == r2[i] by {
        if i < n1 {
            assert(s1[i] == pred_bit(op, v[i], pred_val));
            assert(s2[i] == pred_bit(op, v[i], pred_val));
        } else {
            assert(s1[i] == 0);
            assert(s2[i] == 0);
        }
        assert(r1[i] == bit(i < n1));
        assert(r2[i] == bit(i < n1));
    }
    assert(s1 =~= s2);
    assert(r1 =~= r2);
}

/// On canonical words a query is accepted if and only if `snap_lo` is the
/// commitment to its values and the operator is one of the four.
pub proof fn agg_complete(h: FieldHash, values: Seq<u64>, snap: u64, op: u64, pred_val: u64)
    requires
        forall|i: int| 0 <= i < values.len() ==> #[trigger] values[i] < MODULUS,
        snap < MODULUS,
        op < MODULUS,
        pred_val < MODULUS,
    ensures
        agg_accepts(h, values, snap, op, pred_val) <==> {
            &&& snap == snap_lo(h, MAX_ROWS as nat, values)
            &&& op <= 3
        },
{
    let v = padded(values, MAX_ROWS as nat);
    let s = agg_selectors(values, op, pred_val);
    let r = agg_flags(values);
    if op <= 3 {
        assert forall|i: int| 0 <= i < MAX_ROWS implies agg_row(
            #[trigger] v[i],
            s[i],
            r[i],
            op,
            pred_val,
        ) by {
            if i < values.len() {
                assert(values[i] < MODULUS);
            }
        }
    }
}

/// Without a predicate a query is accepted if and only if `snap_lo` is the
/// commitment to its values.
pub proof fn agg_complete_unfiltered(h: FieldHash, values: Seq<u64>, snap: u64, pred_val: u64)
    ensures
        agg_accepts(h, values, snap, 0, pred_val) <==> residue(snap) == snap_lo(
            h,
            MAX_ROWS as nat,
            values,
        ),
{
    let v = padded(values, MAX_ROWS as nat);
    let s = agg_selectors(values, 0, pred_val);
    let r = agg_flags(values);
    assert forall|i: int| 0 <= i < MAX_ROWS implies agg_row(
        #[trigger] v[i],
        s[i],
        r[i],
        0,
        residue(pred_val),
    ) by {}
}

/// The public count is the number of selected rows, and the last public input
/// is the number of rows.
pub proof fn agg_count_exact(
    h: FieldHash,
    values: Seq<u64>,
    snap: u64,
    qhash: u64,
    op: u64,
    pred_val: u64,
)
    ensures
        agg_statement(h, values, snap, qhash, op, pred_val)[3] == total(
            agg_selectors(values, op, pred_val),
            MAX_ROWS as int,
        ),
        agg_statement(h, values, snap, qhash, op, pred_val)[7] == rows_used(values.len()),
{
    let s = agg_selectors(values, op, pred_val);
    total_of_flags(s, MAX_ROWS as int);
    total_of_prefix(agg_flags(values), MAX_ROWS as int, values.len() as int);
}

} // verus!
