//! The circuit for GROUP BY.
//!
//! Private inputs: the unsorted and the sorted keys, the differences of
//! neighbours in the sorted column, the values in the order of the sorted keys,
//! a selector for each row, a flag for each step at which the key changes, and
//! the running sum of each group. The selected rows are the real ones: they
//! stand after the padding, and padding is zero in key and value. Public inputs:
//! `snap_lo`, `qhash_lo`, sum and count over the real rows, number of groups
//! among the real rows, commitment to the groups, result commitment, commitment
//! to the values.

use vstd::arithmetic::div_mod::lemma_mul_mod_noop_right;
use vstd::arithmetic::div_mod::lemma_sub_mod_noop_right;
use vstd::prelude::*;

use crate::circuit::gadgets::column;
use crate::circuit::gadgets::column_targets;
use crate::circuit::gadgets::dot;
use crate::circuit::gadgets::total;
use crate::circuit::inputs::back;
use crate::circuit::inputs::front;
use crate::circuit::inputs::front_residues;
use crate::circuit::inputs::input_column;
use crate::circuit::inputs::push_all;
use crate::circuit::inputs::push_back;
use crate::circuit::inputs::push_front;
use crate::circuit::inputs::rows_used;
use crate::circuit::inputs::CircuitWitness;
use crate::circuit::laws::canonical_words;
use crate::circuit::laws::group_prover_counts;
use crate::circuit::sort::sort_diffs;
use crate::circuit::sort::DIFF_BITS;
use crate::circuit::sort::DIFF_BOUND;
use crate::circuit::system::bit;
use crate::circuit::system::computes;
use crate::circuit::system::gather;
use crate::circuit::system::is_total;
use crate::circuit::system::ConstraintSystem;
use crate::circuit::system::FieldHash;
use crate::circuit::system::Target;
use crate::circuit::system::MAX_WIRES;
use crate::commitment::poseidon::padded;
use crate::commitment::poseidon::snap_lo;
use crate::commitment::poseidon::MAX_ROWS;
use crate::field::canonical;
use crate::field::fadd;
use crate::field::field_add;
use crate::field::reduced_product;
use crate::field::reduced_sum;
use crate::field::residue;
use crate::field::residues;
use crate::field::MODULUS;

verus! {

/// The first wire of the unsorted keys.
pub const GROUP_IN: usize = 0;

/// The first wire of the sorted keys.
pub const GROUP_OUT: usize = 128;

/// The first wire of the differences.
pub const GROUP_DIFF: usize = 256;

/// The first wire of the values.
pub const GROUP_VALS: usize = 383;

/// The first wire of the selectors.
pub const GROUP_SELECTORS: usize = 511;

/// The first wire of the boundary flags.
pub const GROUP_FLAGS: usize = 639;

/// The first wire of the running sums.
pub const GROUP_SUMS: usize = 766;

/// The wire of `snap_lo`.
pub const GROUP_SNAP: usize = 894;

/// The wire of `qhash_lo`.
pub const GROUP_QHASH: usize = 895;

/// The number of input wires.
pub const GROUP_INPUTS: usize = 896;

/// The private columns of a grouping circuit.
pub ghost struct GroupColumns {
    pub ins: Seq<u64>,
    pub outs: Seq<u64>,
    pub diffs: Seq<u64>,
    pub vals: Seq<u64>,
    pub selectors: Seq<u64>,
    pub flags: Seq<u64>,
    pub sums: Seq<u64>,
}

/// The product of the first `n` keys, each shifted by the challenge.
pub open spec fn key_product(v: Seq<u64>, r: u64, n: int) -> int
    decreases n,
{
    if n <= 0 {
        1
    } else {
        key_product(v, r, n - 1) * (v[n - 1] + r)
    }
}

/// A row is real, or it is padding with neither key nor value.
pub open spec fn group_row(c: GroupColumns, i: int) -> bool {
    &&& c.selectors[i] <= 1
    &&& c.selectors[i] == 1 || c.outs[i] == 0 && c.vals[i] == 0
}

/// The step from row `i` to row `i + 1`: the key rises by a difference in
/// bounds, the flag is set exactly where the difference is not zero, the
/// running sum starts again where the flag is set, and after a real row there
/// is no padding.
pub open spec fn group_step(c: GroupColumns, i: int) -> bool {
    &&& c.diffs[i] < DIFF_BOUND
    &&& c.outs[i + 1] == fadd(c.outs[i] as int, c.diffs[i] as int)
    &&& c.flags[i] == bit(c.diffs[i] != 0)
    &&& c.sums[i + 1] == if c.flags[i] == 1 {
        c.vals[i + 1] as int
    } else {
        fadd(c.sums[i] as int, c.vals[i + 1] as int)
    }
    &&& c.selectors[i] == 0 || c.selectors[i + 1] == 1
}

/// One where row `i` is the first real row of its group, zero elsewhere: it is
/// real, and it follows padding, a change of key or nothing.
pub open spec fn group_start(c: GroupColumns, i: int) -> int {
    if i <= 0 {
        c.selectors[0] as int
    } else {
        c.selectors[i] * (1 - c.selectors[i - 1] * (1 - c.flags[i - 1]))
    }
}

/// The number of groups that start in the first `n` rows.
pub open spec fn group_starts(c: GroupColumns, n: int) -> int
    decreases n,
{
    if n <= 0 {
        0
    } else {
        group_starts(c, n - 1) + group_start(c, n - 1)
    }
}

/// What the circuit demands of its inputs.
pub open spec fn group_relation(h: FieldHash, c: GroupColumns, snap: u64, qhash: u64) -> bool {
    let r = h(seq![snap, qhash])[0];
    let n = MAX_ROWS as int;
    &&& h(c.ins)[0] == snap
    &&& key_product(c.ins, r, n) % (MODULUS as int) == key_product(c.outs, r, n) % (MODULUS as int)
    &&& c.sums[0] == c.vals[0]
    &&& forall|i: int| 0 <= i < n - 1 ==> #[trigger] group_step(c, i)
    &&& forall|i: int| 0 <= i < n ==> #[trigger] group_row(c, i)
}

/// The commitment to sorted keys, running sums and boundary flags.
pub open spec fn group_output(h: FieldHash, outs: Seq<u64>, sums: Seq<u64>, flags: Seq<u64>) -> u64 {
    h(outs + sums + flags)[0]
}

/// The public inputs that the circuit exposes.
pub open spec fn group_public(h: FieldHash, c: GroupColumns, snap: u64, qhash: u64) -> Seq<u64> {
    let n = MAX_ROWS as int;
    let sum = (dot(c.vals, c.selectors, n) % (MODULUS as int)) as u64;
    let count = (total(c.selectors, n) % (MODULUS as int)) as u64;
    let groups = (group_starts(c, n) % (MODULUS as int)) as u64;
    seq![
        snap,
        qhash,
        sum,
        count,
        groups,
        group_output(h, c.outs, c.sums, c.flags),
        h(seq![sum, count])[0],
        h(c.vals)[0],
    ]
}

/// The columns that an assignment holds.
pub open spec fn group_columns(w: Seq<u64>) -> GroupColumns {
    GroupColumns {
        ins: column(w, GROUP_IN, MAX_ROWS as nat),
        outs: column(w, GROUP_OUT, MAX_ROWS as nat),
        diffs: column(w, GROUP_DIFF, (MAX_ROWS - 1) as nat),
        vals: column(w, GROUP_VALS, MAX_ROWS as nat),
        selectors: column(w, GROUP_SELECTORS, MAX_ROWS as nat),
        flags: column(w, GROUP_FLAGS, (MAX_ROWS - 1) as nat),
        sums: column(w, GROUP_SUMS, MAX_ROWS as nat),
    }
}

/// Wires that hold the key products of the first `i` rows.
spec fn key_products_hold(
    w: Seq<u64>,
    r: Target,
    prod_in: Target,
    prod_out: Target,
    i: int,
) -> bool {
    let c = group_columns(w);
    &&& w[prod_in as int] == key_product(c.ins, w[r as int], i) % (MODULUS as int)
    &&& w[prod_out as int] == key_product(c.outs, w[r as int], i) % (MODULUS as int)
}

/// Multiplies both products by the keys of row `i`.
fn key_product_gates(
    b: &mut ConstraintSystem,
    i: usize,
    r: Target,
    prod_in: Target,
    prod_out: Target,
) -> (p: (Target, Target))
    requires
        old(b).wf(),
        GROUP_INPUTS <= old(b).n_wires <= MAX_WIRES - 4,
        i < MAX_ROWS,
        r < old(b).n_wires,
        prod_in < old(b).n_wires,
        prod_out < old(b).n_wires,
    ensures
        final(b).grows(*old(b), 4),
        p.0 < final(b).n_wires,
        p.1 < final(b).n_wires,
        forall|w: Seq<u64>, h: FieldHash| #[trigger]
            final(b).runs(w, h) ==> old(b).runs(w, h) && (key_products_hold(
                w,
                r,
                prod_in,
                prod_out,
                i as int,
            ) ==> key_products_hold(w, r, p.0, p.1, i + 1)),
        forall|w: Seq<u64>| #[trigger] final(b).passes(w) <==> old(b).passes(w),
{
    let a: Target = b.add(GROUP_IN + i, r);
    let b2: Target = b.add(GROUP_OUT + i, r);
    let p_in: Target = b.mul(prod_in, a);
    let p_out: Target = b.mul(prod_out, b2);
    assert forall|w: Seq<u64>, h: FieldHash| #[trigger] b.runs(w, h) && key_products_hold(
        w,
        r,
        prod_in,
        prod_out,
        i as int,
    ) implies key_products_hold(w, r, p_in, p_out, i + 1) by {
        b.runs_canonical(w, h);
        let c = group_columns(w);
        let k = i as int;
        let x = w[r as int];
        reduced_product(key_product(c.ins, x, k), c.ins[k] + x);
        reduced_product(key_product(c.outs, x, k), c.outs[k] + x);
    }
    (p_in, p_out)
}

/// Ties the sorted keys, the flag and the running sums of rows `i` and `i + 1`.
fn group_step_gates(b: &mut ConstraintSystem, i: usize, one: Target, zero: Target)
    requires
        old(b).wf(),
        GROUP_INPUTS <= old(b).n_wires <= MAX_WIRES - 12,
        i < MAX_ROWS - 1,
        one < old(b).n_wires,
        zero < old(b).n_wires,
    ensures
        final(b).grows(*old(b), 12),
        forall|w: Seq<u64>, h: FieldHash| #[trigger]
            final(b).runs(w, h) ==> old(b).runs(w, h) && (w[one as int] == 1 && w[zero as int] == 0
                ==> (final(b).passes(w) <==> old(b).passes(w) && group_step(
                group_columns(w),
                i as int,
            ))),
{
    let f: Target = GROUP_FLAGS + i;
    let d: Target = GROUP_DIFF + i;
    let expected: Target = b.add(GROUP_OUT + i, d);
    b.connect(GROUP_OUT + i + 1, expected);
    b.range_check(d, DIFF_BITS);
    b.assert_boolean(f, one, zero);
    // No boundary implies that the key does not change.
    b.assert_zero_unless(f, d, one, zero);
    // A key that does not change implies no boundary.
    let same: Target = b.is_equal(d, zero);
    b.assert_zero_product(f, same, zero);
    // The running sum goes on, or starts again at a boundary.
    let one_minus_f: Target = b.sub(one, f);
    let continued: Target = b.mul(one_minus_f, GROUP_SUMS + i);
    let expected_sum: Target = b.add(continued, GROUP_VALS + i + 1);
    b.connect(GROUP_SUMS + i + 1, expected_sum);
    // Padding stands before the real rows.
    b.assert_zero_unless(GROUP_SELECTORS + i + 1, GROUP_SELECTORS + i, one, zero);
    assert forall|w: Seq<u64>, h: FieldHash| #[trigger] b.runs(w, h) && w[one as int] == 1
        && w[zero as int] == 0 implies (b.passes(w) <==> old(b).passes(w) && group_step(
        group_columns(w),
        i as int,
    )) by {
        b.runs_canonical(w, h);
        let x: u64 = w[d as int];
        assert(x >> 48u64 == 0 <==> x < 0x1_0000_0000_0000u64) by (bit_vector);
        let g = w[GROUP_SUMS + i];
        if w[f as int] == 1 {
            assert(0 * g == 0);
            assert(w[continued as int] == 0);
        } else if w[f as int] == 0 {
            assert(1 * g == g);
            assert(w[continued as int] == g);
        }
    }
}

/// A wire that holds the number of groups that start in the first `i` rows.
spec fn groups_hold(w: Seq<u64>, groups: Target, i: int) -> bool {
    w[groups as int] == group_starts(group_columns(w), i) % (MODULUS as int)
}

/// Counts row `i + 1` where it is the first real row of its group.
fn group_start_gates(b: &mut ConstraintSystem, i: usize, one: Target, groups: Target) -> (r: Target)
    requires
        old(b).wf(),
        GROUP_INPUTS <= old(b).n_wires <= MAX_WIRES - 5,
        i < MAX_ROWS - 1,
        one < old(b).n_wires,
        groups < old(b).n_wires,
    ensures
        final(b).grows(*old(b), 5),
        r < final(b).n_wires,
        forall|w: Seq<u64>, h: FieldHash| #[trigger]
            final(b).runs(w, h) ==> old(b).runs(w, h) && (w[one as int] == 1 && groups_hold(
                w,
                groups,
                i + 1,
            ) ==> groups_hold(w, r, i + 2)),
        forall|w: Seq<u64>| #[trigger] final(b).passes(w) <==> old(b).passes(w),
{
    let same_key: Target = b.sub(one, GROUP_FLAGS + i);
    let continues: Target = b.mul(GROUP_SELECTORS + i, same_key);
    let fresh: Target = b.sub(one, continues);
    let starts: Target = b.mul(GROUP_SELECTORS + i + 1, fresh);
    let r: Target = b.add(groups, starts);
    assert forall|w: Seq<u64>, h: FieldHash| #[trigger] b.runs(w, h) && w[one as int] == 1
        && groups_hold(w, groups, i + 1) implies groups_hold(w, r, i + 2) by {
        b.runs_canonical(w, h);
        let p = MODULUS as int;
        let c = group_columns(w);
        let k = i as int;
        let s = c.selectors[k] as int;
        let t = c.selectors[k + 1] as int;
        let f = c.flags[k] as int;
        lemma_mul_mod_noop_right(s, 1 - f, p);
        assert(w[continues as int] == (s * (1 - f)) % p);
        lemma_sub_mod_noop_right(1, s * (1 - f), p);
        assert(w[fresh as int] == (1 - s * (1 - f)) % p);
        lemma_mul_mod_noop_right(t, 1 - s * (1 - f), p);
        assert(w[starts as int] == group_start(c, k + 1) % p);
        reduced_sum(group_starts(c, k + 1), group_start(c, k + 1));
        assert(group_starts(c, k + 2) == group_starts(c, k + 1) + group_start(c, k + 1));
    }
    r
}

/// Wires that hold the totals of the first `i` rows.
spec fn group_sums_hold(w: Seq<u64>, sum: Target, count: Target, i: int) -> bool {
    let c = group_columns(w);
    &&& w[sum as int] == dot(c.vals, c.selectors, i) % (MODULUS as int)
    &&& w[count as int] == total(c.selectors, i) % (MODULUS as int)
}

/// Makes the selector of row `i` boolean and a row that is not selected zero,
/// and adds the row to the totals.
fn group_select_gates(
    b: &mut ConstraintSystem,
    i: usize,
    one: Target,
    zero: Target,
    sum: Target,
    count: Target,
) -> (r: (Target, Target))
    requires
        old(b).wf(),
        GROUP_INPUTS <= old(b).n_wires <= MAX_WIRES - 9,
        i < MAX_ROWS,
        one < old(b).n_wires,
        zero < old(b).n_wires,
        sum < old(b).n_wires,
        count < old(b).n_wires,
    ensures
        final(b).grows(*old(b), 9),
        r.0 < final(b).n_wires,
        r.1 < final(b).n_wires,
        forall|w: Seq<u64>, h: FieldHash| #[trigger]
            final(b).runs(w, h) ==> {
                &&& old(b).runs(w, h)
                &&& group_sums_hold(w, sum, count, i as int) ==> group_sums_hold(w, r.0, r.1, i + 1)
                &&& w[one as int] == 1 && w[zero as int] == 0 ==> (final(b).passes(w) <==> old(
                    b,
                ).passes(w) && group_row(group_columns(w), i as int))
            },
{
    b.assert_boolean(GROUP_SELECTORS + i, one, zero);
    b.assert_zero_unless(GROUP_SELECTORS + i, GROUP_OUT + i, one, zero);
    b.assert_zero_unless(GROUP_SELECTORS + i, GROUP_VALS + i, one, zero);
    let term: Target = b.mul(GROUP_VALS + i, GROUP_SELECTORS + i);
    let sum2: Target = b.add(sum, term);
    let count2: Target = b.add(count, GROUP_SELECTORS + i);
    assert forall|w: Seq<u64>, h: FieldHash| #[trigger] b.runs(w, h) implies ({
        &&& group_sums_hold(w, sum, count, i as int) ==> group_sums_hold(w, sum2, count2, i + 1)
        &&& w[one as int] == 1 && w[zero as int] == 0 ==> (b.passes(w) <==> old(b).passes(w)
            && group_row(group_columns(w), i as int))
    }) by {
        b.runs_canonical(w, h);
        let c = group_columns(w);
        let k = i as int;
        reduced_sum(dot(c.vals, c.selectors, k), c.vals[k] * c.selectors[k]);
        reduced_sum(total(c.selectors, k), c.selectors[k] as int);
    }
    (sum2, count2)
}

/// The circuit for GROUP BY.
pub struct GroupByCircuit {
    pub system: ConstraintSystem,
}

impl GroupByCircuit {
    /// The system's assignments are those that the relation allows, and its
    /// public inputs are the ones that the relation determines.
    pub open spec fn wf(self) -> bool {
        &&& self.system.wf()
        &&& self.system.n_inputs == GROUP_INPUTS
        &&& forall|w: Seq<u64>, h: FieldHash| #[trigger]
            self.system.runs(w, h) ==> {
                let c = group_columns(w);
                let snap = w[GROUP_SNAP as int];
                let qhash = w[GROUP_QHASH as int];
                &&& self.system.passes(w) <==> group_relation(h, c, snap, qhash)
                &&& self.system.public_values(w) == group_public(h, c, snap, qhash)
            }
    }

    /// Builds the circuit.
    pub fn build() -> (c: GroupByCircuit)
        ensures
            c.wf(),
    {
        let mut b: ConstraintSystem = ConstraintSystem::new(GROUP_INPUTS);
        // Binding: the first public input is the hash of the unsorted keys.
        let h_in: Target = b.hash(column_targets(GROUP_IN, MAX_ROWS));
        b.connect(h_in, GROUP_SNAP);
        // The challenge comes from the public inputs.
        let mut seed: Vec<Target> = Vec::new();
        seed.push(GROUP_SNAP);
        seed.push(GROUP_QHASH);
        let r: Target = b.hash(seed);
        let one: Target = b.constant(1);
        let zero: Target = b.constant(0);
        // The first running sum is the first value.
        b.connect(GROUP_SUMS, GROUP_VALS);
        let ghost base = b;
        assert forall|w: Seq<u64>, h: FieldHash| #[trigger] base.runs(w, h) implies {
            let c = group_columns(w);
            &&& w[one as int] == 1
            &&& w[zero as int] == 0
            &&& w[r as int] == h(seq![w[GROUP_SNAP as int], w[GROUP_QHASH as int]])[0]
            &&& base.passes(w) <==> h(c.ins)[0] == w[GROUP_SNAP as int] && c.sums[0] == c.vals[0]
        } by {
            base.runs_canonical(w, h);
            assert(gather(w, seed@) =~= seq![w[GROUP_SNAP as int], w[GROUP_QHASH as int]]);
        }
        // Both key columns have the same grand product.
        let mut prod_in: Target = one;
        let mut prod_out: Target = one;
        let mut i: usize = 0;
        while i < MAX_ROWS
            invariant
                i <= MAX_ROWS,
                b.grows(base, (4 * i) as nat),
                GROUP_INPUTS <= base.n_wires <= 2000,
                r < base.n_wires,
                prod_in < b.n_wires,
                prod_out < b.n_wires,
                forall|w: Seq<u64>, h: FieldHash| #[trigger]
                    b.runs(w, h) ==> base.runs(w, h) && key_products_hold(
                        w,
                        r,
                        prod_in,
                        prod_out,
                        i as int,
                    ),
                forall|w: Seq<u64>| #[trigger] b.passes(w) <==> base.passes(w),
            decreases MAX_ROWS - i,
        {
            let next: (Target, Target) = key_product_gates(&mut b, i, r, prod_in, prod_out);
            prod_in = next.0;
            prod_out = next.1;
            i = i + 1;
        }
        b.connect(prod_in, prod_out);
        let ghost multiplied = b;
        // Sorted keys, boundary flags, running sums.
        let mut groups: Target = GROUP_SELECTORS;
        assert forall|w: Seq<u64>, h: FieldHash| #[trigger] multiplied.runs(w, h) implies groups_hold(
            w,
            groups,
            1,
        ) by {
            multiplied.runs_canonical(w, h);
            let c = group_columns(w);
            assert(group_starts(c, 1) == group_starts(c, 0) + group_start(c, 0));
        }
        let mut i: usize = 0;
        while i < MAX_ROWS - 1
            invariant
                i <= MAX_ROWS - 1,
                b.grows(multiplied, (17 * i) as nat),
                GROUP_INPUTS <= multiplied.n_wires <= 4000,
                one < multiplied.n_wires,
                zero < multiplied.n_wires,
                groups < b.n_wires,
                forall|w: Seq<u64>, h: FieldHash| #[trigger]
                    multiplied.runs(w, h) ==> w[one as int] == 1 && w[zero as int] == 0,
                forall|w: Seq<u64>, h: FieldHash| #[trigger]
                    b.runs(w, h) ==> multiplied.runs(w, h) && groups_hold(w, groups, i + 1) && (
                    b.passes(w) <==> multiplied.passes(w) && forall|j: int|
                        0 <= j < i ==> #[trigger] group_step(group_columns(w), j)),
            decreases MAX_ROWS - 1 - i,
        {
            group_step_gates(&mut b, i, one, zero);
            groups = group_start_gates(&mut b, i, one, groups);
            i = i + 1;
        }
        let ghost stepped = b;
        // Padding is zero, and the real rows are added up.
        let mut sum: Target = zero;
        let mut count: Target = zero;
        let mut i: usize = 0;
        while i < MAX_ROWS
            invariant
                i <= MAX_ROWS,
                b.grows(stepped, (9 * i) as nat),
                GROUP_INPUTS <= stepped.n_wires <= 10000,
                one < stepped.n_wires,
                zero < stepped.n_wires,
                sum < b.n_wires,
                count < b.n_wires,
                forall|w: Seq<u64>, h: FieldHash| #[trigger]
                    stepped.runs(w, h) ==> w[one as int] == 1 && w[zero as int] == 0,
                forall|w: Seq<u64>, h: FieldHash| #[trigger]
                    b.runs(w, h) ==> stepped.runs(w, h) && group_sums_hold(w, sum, count, i as int)
                        && (b.passes(w) <==> stepped.passes(w) && forall|j: int|
                        0 <= j < i ==> #[trigger] group_row(group_columns(w), j)),
            decreases MAX_ROWS - i,
        {
            let next: (Target, Target) = group_select_gates(&mut b, i, one, zero, sum, count);
            sum = next.0;
            count = next.1;
            i = i + 1;
        }
        let ghost selected = b;
        // Commitments to the groups, the result and the values.
        let mut group_out: Vec<Target> = column_targets(GROUP_OUT, MAX_ROWS);
        let mut sums_t: Vec<Target> = column_targets(GROUP_SUMS, MAX_ROWS);
        let mut flags_t: Vec<Target> = column_targets(GROUP_FLAGS, MAX_ROWS - 1);
        let ghost outs_v = group_out@;
        let ghost sums_v = sums_t@;
        let ghost flags_v = flags_t@;
        group_out.append(&mut sums_t);
        group_out.append(&mut flags_t);
        let ghost group_v = group_out@;
        let group_hash: Target = b.hash(group_out);
        let mut result: Vec<Target> = Vec::new();
        result.push(sum);
        result.push(count);
        let result_hash: Target = b.hash(result);
        let vals_hash: Target = b.hash(column_targets(GROUP_VALS, MAX_ROWS));
        b.register_public_input(GROUP_SNAP);
        b.register_public_input(GROUP_QHASH);
        b.register_public_input(sum);
        b.register_public_input(count);
        b.register_public_input(groups);
        b.register_public_input(group_hash);
        b.register_public_input(result_hash);
        b.register_public_input(vals_hash);
        let c: GroupByCircuit = GroupByCircuit { system: b };
        assert forall|w: Seq<u64>, h: FieldHash| #[trigger] c.system.runs(w, h) implies ({
            let cols = group_columns(w);
            let snap = w[GROUP_SNAP as int];
            let qhash = w[GROUP_QHASH as int];
            &&& c.system.passes(w) <==> group_relation(h, cols, snap, qhash)
            &&& c.system.public_values(w) == group_public(h, cols, snap, qhash)
        }) by {
            c.system.runs_canonical(w, h);
            assert(selected.runs(w, h));
            assert(stepped.runs(w, h));
            assert(multiplied.runs(w, h));
            assert(base.runs(w, h));
            let cols = group_columns(w);
            assert(gather(w, outs_v) == cols.outs);
            assert(gather(w, sums_v) == cols.sums);
            assert(gather(w, flags_v) == cols.flags);
            assert(gather(w, group_v) =~= cols.outs + cols.sums + cols.flags);
            assert(gather(w, result@) =~= seq![w[sum as int], w[count as int]]);
            assert(c.system.public_values(w) =~= group_public(
                h,
                cols,
                w[GROUP_SNAP as int],
                w[GROUP_QHASH as int],
            ));
        }
        c
    }
}

/// The number of zeros before the sorted keys.
pub open spec fn group_pad(len: nat) -> int {
    MAX_ROWS - rows_used(len)
}

/// The boundary flags of a sorted column of words.
pub open spec fn boundary_flags(outs: Seq<u64>) -> Seq<u64> {
    Seq::new((MAX_ROWS - 1) as nat, |i: int| bit(sort_diffs(outs, false)[i] != 0))
}

/// The running sum of the group at row `i`.
pub open spec fn running_sum(vals: Seq<u64>, flags: Seq<u64>, i: int) -> u64
    decreases i,
{
    if i <= 0 {
        residue(vals[0])
    } else if flags[i - 1] == 1 {
        residue(vals[i])
    } else {
        fadd(running_sum(vals, flags, i - 1) as int, vals[i] as int) as u64
    }
}

/// The running sums of all rows.
pub open spec fn running_sums(vals: Seq<u64>, flags: Seq<u64>) -> Seq<u64> {
    Seq::new(MAX_ROWS as nat, |i: int| running_sum(vals, flags, i))
}

/// The columns that the prover sets.
pub open spec fn group_inputs(
    in_keys: Seq<u64>,
    out_keys: Seq<u64>,
    vals: Seq<u64>,
) -> GroupColumns {
    let n_pad = group_pad(in_keys.len());
    let outs = back(out_keys, n_pad);
    let values = back(vals, n_pad);
    GroupColumns {
        ins: padded(in_keys, MAX_ROWS as nat),
        outs: residues(outs),
        diffs: residues(sort_diffs(outs, false)),
        vals: residues(values),
        selectors: Seq::new(MAX_ROWS as nat, |i: int| bit(i >= n_pad)),
        flags: boundary_flags(outs),
        sums: running_sums(values, boundary_flags(outs)),
    }
}

/// There are as many sorted as unsorted keys, and the rows of the grouping meet
/// the relation.
pub open spec fn group_accepts(
    h: FieldHash,
    in_keys: Seq<u64>,
    out_keys: Seq<u64>,
    vals: Seq<u64>,
    snap: u64,
    qhash: u64,
) -> bool {
    &&& out_keys.len() == in_keys.len()
    &&& group_relation(h, group_inputs(in_keys, out_keys, vals), residue(snap), residue(qhash))
}

/// The public inputs of a grouping.
pub open spec fn group_statement(
    h: FieldHash,
    in_keys: Seq<u64>,
    out_keys: Seq<u64>,
    vals: Seq<u64>,
    snap: u64,
    qhash: u64,
) -> Seq<u64> {
    group_public(h, group_inputs(in_keys, out_keys, vals), residue(snap), residue(qhash))
}

/// The number of different keys among the rows that the circuit takes.
pub open spec fn group_count(out_keys: Seq<u64>) -> nat {
    out_keys.take(rows_used(out_keys.len())).to_set().len()
}

/// The commitment to the groups of sorted keys and their values.
pub open spec fn group_output_lo(h: FieldHash, sorted_keys: Seq<u64>, vals: Seq<u64>) -> u64 {
    let n_pad = group_pad(sorted_keys.len());
    let outs = back(sorted_keys, n_pad);
    let flags = boundary_flags(outs);
    group_output(h, residues(outs), running_sums(back(vals, n_pad), flags), flags)
}

/// The differences of neighbours, as far as they rise.
fn rising_diffs(outs: &Vec<u64>) -> (r: Vec<u64>)
    requires
        outs@.len() == MAX_ROWS,
    ensures
        r@ == sort_diffs(outs@, false),
{
    let mut r: Vec<u64> = Vec::new();
    let mut i: usize = 0;
    while i < MAX_ROWS - 1
        invariant
            i <= MAX_ROWS - 1,
            outs@.len() == MAX_ROWS,
            r@.len() == i,
            forall|k: int| 0 <= k < i ==> #[trigger] r@[k] == sort_diffs(outs@, false)[k],
        decreases MAX_ROWS - 1 - i,
    {
        let d: u64 = if outs[i + 1] >= outs[i] {
            outs[i + 1] - outs[i]
        } else {
            0
        };
        r.push(d);
        i = i + 1;
    }
    assert(r@ =~= sort_diffs(outs@, false));
    r
}

/// The boundary flags of a sorted column.
fn flags_of(outs: &Vec<u64>) -> (r: Vec<u64>)
    requires
        outs@.len() == MAX_ROWS,
    ensures
        r@ == boundary_flags(outs@),
{
    let diffs: Vec<u64> = rising_diffs(outs);
    let mut r: Vec<u64> = Vec::new();
    let mut i: usize = 0;
    while i < MAX_ROWS - 1
        invariant
            i <= MAX_ROWS - 1,
            diffs@ == sort_diffs(outs@, false),
            r@.len() == i,
            forall|k: int| 0 <= k < i ==> #[trigger] r@[k] == boundary_flags(outs@)[k],
        decreases MAX_ROWS - 1 - i,
    {
        if diffs[i] > 0 {
            r.push(1);
        } else {
            r.push(0);
        }
        i = i + 1;
    }
    assert(r@ =~= boundary_flags(outs@));
    r
}

/// The running sums of the groups.
fn sums_of(vals: &Vec<u64>, flags: &Vec<u64>) -> (r: Vec<u64>)
    requires
        vals@.len() == MAX_ROWS,
        flags@.len() == MAX_ROWS - 1,
    ensures
        r@ == running_sums(vals@, flags@),
{
    let mut r: Vec<u64> = Vec::new();
    r.push(canonical(vals[0]));
    let mut i: usize = 1;
    while i < MAX_ROWS
        invariant
            1 <= i <= MAX_ROWS,
            vals@.len() == MAX_ROWS,
            flags@.len() == MAX_ROWS - 1,
            r@.len() == i,
            forall|k: int| 0 <= k < i ==> #[trigger] r@[k] == running_sum(vals@, flags@, k),
        decreases MAX_ROWS - i,
    {
        let v: u64 = if flags[i - 1] == 1 {
            canonical(vals[i])
        } else {
            field_add(r[i - 1], vals[i])
        };
        r.push(v);
        i = i + 1;
    }
    assert(r@ =~= running_sums(vals@, flags@));
    r
}

/// Running sums are canonical.
proof fn running_sum_canonical(vals: Seq<u64>, flags: Seq<u64>, i: int)
    ensures
        running_sum(vals, flags, i) < MODULUS,
{
}

/// Computes the commitment to the groups of sorted keys and their values.
pub fn compute_group_output_lo_padded<H: Fn(&Vec<u64>) -> [u64; 4]>(
    sorted_keys: &[u64],
    vals: &[u64],
    hash: &H,
) -> (r: u64)
    requires
        is_total(*hash),
    ensures
        forall|h: FieldHash| #[trigger]
            computes(*hash, h) ==> r == group_output_lo(h, sorted_keys@, vals@),
{
    let n_pad: usize = if sorted_keys.len() < MAX_ROWS {
        MAX_ROWS - sorted_keys.len()
    } else {
        0
    };
    let mut outs: Vec<u64> = Vec::new();
    push_back(&mut outs, sorted_keys, n_pad);
    assert(outs@ =~= back(sorted_keys@, n_pad as int));
    let mut values: Vec<u64> = Vec::new();
    push_back(&mut values, vals, n_pad);
    assert(values@ =~= back(vals@, n_pad as int));
    let flags: Vec<u64> = flags_of(&outs);
    let sums: Vec<u64> = sums_of(&values, &flags);
    let mut x: Vec<u64> = Vec::new();
    let mut i: usize = 0;
    while i < MAX_ROWS
        invariant
            i <= MAX_ROWS,
            outs@.len() == MAX_ROWS,
            x@ =~= residues(outs@).take(i as int),
        decreases MAX_ROWS - i,
    {
        x.push(canonical(outs[i]));
        i = i + 1;
    }
    assert(x@ =~= residues(outs@));
    push_all(&mut x, &sums);
    push_all(&mut x, &flags);
    let d: [u64; 4] = hash(&x);
    assert forall|h: FieldHash| #[trigger] computes(*hash, h) implies d[0] == group_output_lo(
        h,
        sorted_keys@,
        vals@,
    ) by {
        reveal(computes);
        assert(d@ == h(x@));
        assert(x@ =~= residues(outs@) + sums@ + flags@);
    }
    d[0]
}

impl GroupByCircuit {
    /// Assigns the circuit's wires. Fails where there are more or fewer sorted
    /// keys than unsorted ones, the unsorted keys do not hash to `snap_lo`, the
    /// grand products differ, or the sorted keys do not ascend in steps below
    /// `DIFF_BOUND`. The number of groups that is proved of canonical keys is
    /// the number of different ones.
    pub fn prove<H: Fn(&Vec<u64>) -> [u64; 4]>(
        &self,
        in_keys: &[u64],
        out_keys: &[u64],
        vals: &[u64],
        snap_lo: u64,
        qhash_lo: u64,
        hash: &H,
    ) -> (r: Result<CircuitWitness, String>)
        requires
            self.wf(),
            is_total(*hash),
        ensures
            forall|h: FieldHash| #[trigger]
                computes(*hash, h) ==> {
                    &&& r is Ok <==> group_accepts(
                        h,
                        in_keys@,
                        out_keys@,
                        vals@,
                        snap_lo,
                        qhash_lo,
                    )
                    &&& r matches Ok(p) ==> self.system.satisfied(p.wires@, h)
                        && p.public_inputs@ == group_statement(
                        h,
                        in_keys@,
                        out_keys@,
                        vals@,
                        snap_lo,
                        qhash_lo,
                    ) && (canonical_words(out_keys@) ==> p.public_inputs@[4] == group_count(
                        out_keys@,
                    ))
                },
            r matches Ok(p) ==> p.wires@.len() == self.system.n_wires && p.public_inputs@
                == self.system.public_values(p.wires@),
            out_keys@.len() != in_keys@.len() ==> r is Err,
            r matches Err(e) ==> e@ == "group_by prove: constraints not satisfied"@,
    {
        if out_keys.len() != in_keys.len() {
            return Err("group_by prove: constraints not satisfied".to_owned());
        }
        let ghost cols = group_inputs(in_keys@, out_keys@, vals@);
        let n_pad: usize = if in_keys.len() < MAX_ROWS {
            MAX_ROWS - in_keys.len()
        } else {
            0
        };
        let mut outs: Vec<u64> = Vec::new();
        push_back(&mut outs, out_keys, n_pad);
        assert(outs@ =~= back(out_keys@, n_pad as int));
        let mut values: Vec<u64> = Vec::new();
        push_back(&mut values, vals, n_pad);
        assert(values@ =~= back(vals@, n_pad as int));
        let diffs: Vec<u64> = rising_diffs(&outs);
        let flags: Vec<u64> = flags_of(&outs);
        let sums: Vec<u64> = sums_of(&values, &flags);
        let mut sel: Vec<u64> = Vec::new();
        let mut i: usize = 0;
        while i < MAX_ROWS
            invariant
                i <= MAX_ROWS,
                n_pad == group_pad(in_keys@.len()),
                cols == group_inputs(in_keys@, out_keys@, vals@),
                sel@.len() == i,
                forall|k: int| 0 <= k < i ==> #[trigger] sel@[k] == cols.selectors[k],
            decreases MAX_ROWS - i,
        {
            if i >= n_pad {
                sel.push(1);
            } else {
                sel.push(0);
            }
            i = i + 1;
        }
        assert(sel@ =~= cols.selectors);
        let mut inputs: Vec<u64> = Vec::new();
        push_front(&mut inputs, in_keys);
        push_all(&mut inputs, &outs);
        push_all(&mut inputs, &diffs);
        push_all(&mut inputs, &values);
        push_all(&mut inputs, &sel);
        push_all(&mut inputs, &flags);
        push_all(&mut inputs, &sums);
        inputs.push(snap_lo);
        inputs.push(qhash_lo);
        let solved: (CircuitWitness, bool) = self.system.solve(&inputs, hash);
        proof {
            let w = solved.0.wires@;
            let n = GROUP_INPUTS as int;
            self.system.inputs_exist();
            assert(inputs@.subrange(0, 128) =~= front(in_keys@));
            assert(inputs@.subrange(128, 256) =~= outs@);
            assert(inputs@.subrange(256, 383) =~= diffs@);
            assert(inputs@.subrange(383, 511) =~= values@);
            assert(inputs@.subrange(511, 639) =~= sel@);
            assert(inputs@.subrange(639, 766) =~= flags@);
            assert(inputs@.subrange(766, 894) =~= sums@);
            input_column(w, inputs@, n, GROUP_IN, front(in_keys@));
            input_column(w, inputs@, n, GROUP_OUT, outs@);
            input_column(w, inputs@, n, GROUP_DIFF, diffs@);
            input_column(w, inputs@, n, GROUP_VALS, values@);
            input_column(w, inputs@, n, GROUP_SELECTORS, sel@);
            input_column(w, inputs@, n, GROUP_FLAGS, flags@);
            input_column(w, inputs@, n, GROUP_SUMS, sums@);
            front_residues(in_keys@);
            assert(residues(sel@) =~= sel@);
            assert(residues(flags@) =~= flags@);
            assert forall|i: int| 0 <= i < MAX_ROWS implies residues(sums@)[i] == sums@[i] by {
                running_sum_canonical(values@, flags@, i);
            }
            assert(residues(sums@) =~= sums@);
            assert(group_columns(w) == cols);
            assert forall|h: FieldHash| #[trigger]
                computes(*hash, h) && solved.1 && canonical_words(out_keys@) implies group_statement(
                h,
                in_keys@,
                out_keys@,
                vals@,
                snap_lo,
                qhash_lo,
            )[4] == group_count(out_keys@) by {
                assert(self.system.runs(w, h));
                group_prover_counts(h, in_keys@, out_keys@, vals@, snap_lo, qhash_lo);
            }
        }
        if solved.1 {
            Ok(solved.0)
        } else {
            Err("group_by prove: constraints not satisfied".to_owned())
        }
    }
}

} // verus!
