//! The circuits for ORDER BY, ascending and descending.
//!
//! Private inputs: the unsorted and the sorted values, the differences of
//! neighbours in the sorted column, a selector for each row, and for each row
//! a fingerprint of its payload in two halves, unsorted and sorted. Public
//! inputs: `snap_lo`, `qhash_lo`, sum and count over the selected rows, result
//! commitment, commitments to the two halves of the unsorted fingerprints.

use vstd::prelude::*;

use crate::circuit::gadgets::column;
use crate::circuit::gadgets::column_targets;
use crate::circuit::gadgets::dot;
use crate::circuit::gadgets::total;
use crate::circuit::inputs::back;
use crate::circuit::inputs::front;
use crate::circuit::inputs::front_residues;
use crate::circuit::inputs::input_column;
use crate::circuit::inputs::push_all;
use crate::circuit::inputs::push_back;
use crate::circuit::inputs::push_front;
use crate::circuit::inputs::rows_used;
use crate::circuit::inputs::CircuitWitness;
use crate::circuit::system::bit;
use crate::circuit::system::computes;
use crate::circuit::system::gather;
use crate::circuit::system::is_total;
use crate::circuit::system::ConstraintSystem;
use crate::circuit::system::FieldHash;
use crate::circuit::system::Target;
use crate::circuit::system::MAX_WIRES;
use crate::commitment::poseidon::padded;
use crate::commitment::poseidon::snap_lo;
use crate::commitment::poseidon::MAX_ROWS;
use crate::field::fadd;
use crate::field::reduced_product;
use crate::field::reduced_sum;
use crate::field::residue;
use crate::field::residues;
use crate::field::MODULUS;

verus! {

/// The first wire of the unsorted values.
pub const SORT_IN: usize = 0;

/// The first wire of the sorted values.
pub const SORT_OUT: usize = 128;

/// The first wire of the differences.
pub const SORT_DIFF: usize = 256;

/// The first wire of the selectors.
pub const SORT_SELECTORS: usize = 383;

/// The first wire of the low halves of the unsorted fingerprints.
pub const SORT_IN_LO: usize = 511;

/// The first wire of the low halves of the sorted fingerprints.
pub const SORT_OUT_LO: usize = 639;

/// The first wire of the high halves of the unsorted fingerprints.
pub const SORT_IN_HI: usize = 767;

/// The first wire of the high halves of the sorted fingerprints.
pub const SORT_OUT_HI: usize = 895;

/// The wire of `snap_lo`.
pub const SORT_SNAP: usize = 1023;

/// The wire of `qhash_lo`.
pub const SORT_QHASH: usize = 1024;

/// The number of input wires.
pub const SORT_INPUTS: usize = 1025;

/// The number of binary digits that a difference of neighbours may have.
pub const DIFF_BITS: u64 = 48;

/// Differences of neighbours are below this bound.
pub const DIFF_BOUND: u64 = 0x1_0000_0000_0000;

/// The private columns of a sort circuit.
pub ghost struct SortColumns {
    pub ins: Seq<u64>,
    pub outs: Seq<u64>,
    pub diffs: Seq<u64>,
    pub selectors: Seq<u64>,
    pub in_lo: Seq<u64>,
    pub out_lo: Seq<u64>,
    pub in_hi: Seq<u64>,
    pub out_hi: Seq<u64>,
}

/// One factor of a grand product: a row's value and fingerprint under the
/// challenge.
pub open spec fn factor(v: u64, lo: u64, hi: u64, r: Seq<u64>) -> int {
    v + r[0] + r[1] * lo + r[2] * hi
}

/// The product of the factors of the first `n` rows.
pub open spec fn grand_product(
    v: Seq<u64>,
    lo: Seq<u64>,
    hi: Seq<u64>,
    r: Seq<u64>,
    n: int,
) -> int
    decreases n,
{
    if n <= 0 {
        1
    } else {
        grand_product(v, lo, hi, r, n - 1) * factor(v[n - 1], lo[n - 1], hi[n - 1], r)
    }
}

/// The step from row `i` to row `i + 1` of the sorted column is a difference
/// within bounds, upwards or downwards.
pub open spec fn sort_step(c: SortColumns, descending: bool, i: int) -> bool {
    &&& c.diffs[i] < DIFF_BOUND
    &&& if descending {
        c.outs[i] == fadd(c.outs[i + 1] as int, c.diffs[i] as int)
    } else {
        c.outs[i + 1] == fadd(c.outs[i] as int, c.diffs[i] as int)
    }
}

/// What a sort circuit demands of its inputs.
pub open spec fn sort_relation(
    h: FieldHash,
    c: SortColumns,
    snap: u64,
    qhash: u64,
    descending: bool,
) -> bool {
    let r = h(seq![snap, qhash]);
    let n = MAX_ROWS as int;
    &&& h(c.ins)[0] == snap
    &&& grand_product(c.ins, c.in_lo, c.in_hi, r, n) % (MODULUS as int) == grand_product(
        c.outs,
        c.out_lo,
        c.out_hi,
        r,
        n,
    ) % (MODULUS as int)
    &&& forall|i: int| 0 <= i < n - 1 ==> #[trigger] sort_step(c, descending, i)
    &&& forall|i: int| 0 <= i < n ==> #[trigger] c.selectors[i] <= 1
}

/// The public inputs that a sort circuit exposes.
pub open spec fn sort_public(h: FieldHash, c: SortColumns, snap: u64, qhash: u64) -> Seq<u64> {
    let sum = (dot(c.outs, c.selectors, MAX_ROWS as int) % (MODULUS as int)) as u64;
    let count = (total(c.selectors, MAX_ROWS as int) % (MODULUS as int)) as u64;
    seq![snap, qhash, sum, count, h(seq![sum, count])[0], h(c.in_lo)[0], h(c.in_hi)[0]]
}

/// The columns that an assignment holds.
pub open spec fn sort_columns(w: Seq<u64>) -> SortColumns {
    SortColumns {
        ins: column(w, SORT_IN, MAX_ROWS as nat),
        outs: column(w, SORT_OUT, MAX_ROWS as nat),
        diffs: column(w, SORT_DIFF, (MAX_ROWS - 1) as nat),
        selectors: column(w, SORT_SELECTORS, MAX_ROWS as nat),
        in_lo: column(w, SORT_IN_LO, MAX_ROWS as nat),
        out_lo: column(w, SORT_OUT_LO, MAX_ROWS as nat),
        in_hi: column(w, SORT_IN_HI, MAX_ROWS as nat),
        out_hi: column(w, SORT_OUT_HI, MAX_ROWS as nat),
    }
}

/// The system's assignments are those that the relation allows, and its public
/// inputs are the ones that the relation determines.
pub open spec fn sort_system_wf(s: ConstraintSystem, descending: bool) -> bool {
    &&& s.wf()
    &&& s.n_inputs == SORT_INPUTS
    &&& forall|w: Seq<u64>, h: FieldHash| #[trigger]
        s.runs(w, h) ==> {
            let c = sort_columns(w);
            let snap = w[SORT_SNAP as int];
            let qhash = w[SORT_QHASH as int];
            &&& s.passes(w) <==> sort_relation(h, c, snap, qhash, descending)
            &&& s.public_values(w) == sort_public(h, c, snap, qhash)
        }
}

/// Adds the factor of a row.
fn factor_gates(
    b: &mut ConstraintSystem,
    v: Target,
    lo: Target,
    hi: Target,
    r: Target,
) -> (out: Target)
    requires
        old(b).wf(),
        old(b).n_wires <= MAX_WIRES - 5,
        v < old(b).n_wires,
        lo < old(b).n_wires,
        hi < old(b).n_wires,
        r + 3 < old(b).n_wires,
    ensures
        final(b).grows(*old(b), 5),
        out < final(b).n_wires,
        forall|w: Seq<u64>, h: FieldHash| #[trigger]
            final(b).runs(w, h) ==> old(b).runs(w, h) && w[out as int] == factor(
                w[v as int],
                w[lo as int],
                w[hi as int],
                column(w, r, 4),
            ) % (MODULUS as int),
        forall|w: Seq<u64>| #[trigger] final(b).passes(w) <==> old(b).passes(w),
{
    let r2_lo: Target = b.mul(r + 1, lo);
    let r3_hi: Target = b.mul(r + 2, hi);
    let tmp: Target = b.add(v, r);
    let tmp2: Target = b.add(tmp, r2_lo);
    let out: Target = b.add(tmp2, r3_hi);
    assert forall|w: Seq<u64>, h: FieldHash| #[trigger] b.runs(w, h) implies w[out as int]
        == factor(w[v as int], w[lo as int], w[hi as int], column(w, r, 4)) % (MODULUS as int) by {
        b.runs_canonical(w, h);
        let q = column(w, r, 4);
        let x = w[v as int] + q[0];
        let y = q[1] * w[lo as int];
        let z = q[2] * w[hi as int];
        assert(w[r2_lo as int] == y % (MODULUS as int));
        assert(w[r3_hi as int] == z % (MODULUS as int));
        reduced_sum(x, y);
        reduced_sum(x + y, z);
    }
    out
}

/// Wires that hold the grand products of the first `i` rows.
spec fn products_hold(w: Seq<u64>, r: Target, prod_in: Target, prod_out: Target, i: int) -> bool {
    let c = sort_columns(w);
    let q = column(w, r, 4);
    &&& w[prod_in as int] == grand_product(c.ins, c.in_lo, c.in_hi, q, i) % (MODULUS as int)
    &&& w[prod_out as int] == grand_product(c.outs, c.out_lo, c.out_hi, q, i) % (MODULUS as int)
}

/// Multiplies both products by the factors of row `i`.
fn product_gates(
    b: &mut ConstraintSystem,
    i: usize,
    r: Target,
    prod_in: Target,
    prod_out: Target,
) -> (p: (Target, Target))
    requires
        old(b).wf(),
        SORT_INPUTS <= old(b).n_wires <= MAX_WIRES - 12,
        i < MAX_ROWS,
        r + 3 < old(b).n_wires,
        prod_in < old(b).n_wires,
        prod_out < old(b).n_wires,
    ensures
        final(b).grows(*old(b), 12),
        p.0 < final(b).n_wires,
        p.1 < final(b).n_wires,
        forall|w: Seq<u64>, h: FieldHash| #[trigger]
            final(b).runs(w, h) ==> old(b).runs(w, h) && (products_hold(
                w,
                r,
                prod_in,
                prod_out,
                i as int,
            ) ==> products_hold(w, r, p.0, p.1, i + 1)),
        forall|w: Seq<u64>| #[trigger] final(b).passes(w) <==> old(b).passes(w),
{
    let a: Target = factor_gates(b, SORT_IN + i, SORT_IN_LO + i, SORT_IN_HI + i, r);
    let c2: Target = factor_gates(b, SORT_OUT + i, SORT_OUT_LO + i, SORT_OUT_HI + i, r);
    let p_in: Target = b.mul(prod_in, a);
    let p_out: Target = b.mul(prod_out, c2);
    assert forall|w: Seq<u64>, h: FieldHash| #[trigger] b.runs(w, h) && products_hold(
        w,
        r,
        prod_in,
        prod_out,
        i as int,
    ) implies products_hold(w, r, p_in, p_out, i + 1) by {
        b.runs_canonical(w, h);
        let c = sort_columns(w);
        let q = column(w, r, 4);
        let k = i as int;
        reduced_product(
            grand_product(c.ins, c.in_lo, c.in_hi, q, k),
            factor(c.ins[k], c.in_lo[k], c.in_hi[k], q),
        );
        reduced_product(
            grand_product(c.outs, c.out_lo, c.out_hi, q, k),
            factor(c.outs[k], c.out_lo[k], c.out_hi[k], q),
        );
    }
    (p_in, p_out)
}

/// Ties the sorted values of rows `i` and `i + 1` by a difference in bounds.
fn step_gates(b: &mut ConstraintSystem, i: usize, descending: bool)
    requires
        old(b).wf(),
        SORT_INPUTS <= old(b).n_wires <= MAX_WIRES - 1,
        i < MAX_ROWS - 1,
    ensures
        final(b).grows(*old(b), 1),
        forall|w: Seq<u64>, h: FieldHash| #[trigger]
            final(b).runs(w, h) ==> old(b).runs(w, h) && (final(b).passes(w) <==> old(b).passes(w)
                && sort_step(sort_columns(w), descending, i as int)),
{
    let low: Target = if descending {
        SORT_OUT + i + 1
    } else {
        SORT_OUT + i
    };
    let high: Target = if descending {
        SORT_OUT + i
    } else {
        SORT_OUT + i + 1
    };
    let expected: Target = b.add(low, SORT_DIFF + i);
    b.connect(high, expected);
    b.range_check(SORT_DIFF + i, DIFF_BITS);
    assert forall|w: Seq<u64>, h: FieldHash| #[trigger] b.runs(w, h) implies (b.passes(w) <==> old(
        b,
    ).passes(w) && sort_step(sort_columns(w), descending, i as int)) by {
        b.runs_canonical(w, h);
        let d: u64 = w[SORT_DIFF + i];
        assert(d >> 48u64 == 0 <==> d < 0x1_0000_0000_0000u64) by (bit_vector);
    }
}

/// Wires that hold the totals of the first `i` rows.
spec fn sort_sums_hold(w: Seq<u64>, sum: Target, count: Target, i: int) -> bool {
    let c = sort_columns(w);
    &&& w[sum as int] == dot(c.outs, c.selectors, i) % (MODULUS as int)
    &&& w[count as int] == total(c.selectors, i) % (MODULUS as int)
}

/// Makes the selector of row `i` boolean, and adds the row to the totals.
fn select_gates(
    b: &mut ConstraintSystem,
    i: usize,
    one: Target,
    zero: Target,
    sum: Target,
    count: Target,
) -> (r: (Target, Target))
    requires
        old(b).wf(),
        SORT_INPUTS <= old(b).n_wires <= MAX_WIRES - 5,
        i < MAX_ROWS,
        one < old(b).n_wires,
        zero < old(b).n_wires,
        sum < old(b).n_wires,
        count < old(b).n_wires,
    ensures
        final(b).grows(*old(b), 5),
        r.0 < final(b).n_wires,
        r.1 < final(b).n_wires,
        forall|w: Seq<u64>, h: FieldHash| #[trigger]
            final(b).runs(w, h) ==> {
                &&& old(b).runs(w, h)
                &&& sort_sums_hold(w, sum, count, i as int) ==> sort_sums_hold(w, r.0, r.1, i + 1)
                &&& w[one as int] == 1 && w[zero as int] == 0 ==> (final(b).passes(w) <==> old(
                    b,
                ).passes(w) && sort_columns(w).selectors[i as int] <= 1)
            },
{
    b.assert_boolean(SORT_SELECTORS + i, one, zero);
    let term: Target = b.mul(SORT_OUT + i, SORT_SELECTORS + i);
    let sum2: Target = b.add(sum, term);
    let count2: Target = b.add(count, SORT_SELECTORS + i);
    assert forall|w: Seq<u64>, h: FieldHash| #[trigger] b.runs(w, h) implies ({
        &&& sort_sums_hold(w, sum, count, i as int) ==> sort_sums_hold(w, sum2, count2, i + 1)
        &&& w[one as int] == 1 && w[zero as int] == 0 ==> (b.passes(w) <==> old(b).passes(w)
            && sort_columns(w).selectors[i as int] <= 1)
    }) by {
        b.runs_canonical(w, h);
        let c = sort_columns(w);
        let k = i as int;
        reduced_sum(dot(c.outs, c.selectors, k), c.outs[k] * c.selectors[k]);
        reduced_sum(total(c.selectors, k), c.selectors[k] as int);
    }
    (sum2, count2)
}

/// Builds a sort circuit, ascending or descending.
fn sort_system(descending: bool) -> (s: ConstraintSystem)
    ensures
        sort_system_wf(s, descending),
{
    let mut b: ConstraintSystem = ConstraintSystem::new(SORT_INPUTS);
    // Binding: the first public input is the hash of the unsorted values.
    let h_in: Target = b.hash(column_targets(SORT_IN, MAX_ROWS));
    b.connect(h_in, SORT_SNAP);
    // The challenges come from the public inputs.
    let mut seed: Vec<Target> = Vec::new();
    seed.push(SORT_SNAP);
    seed.push(SORT_QHASH);
    let r: Target = b.hash(seed);
    let one: Target = b.constant(1);
    let zero: Target = b.constant(0);
    let ghost base = b;
    assert forall|w: Seq<u64>, h: FieldHash| #[trigger] base.runs(w, h) implies {
        &&& w[one as int] == 1
        &&& w[zero as int] == 0
        &&& w[r as int] == h(seq![w[SORT_SNAP as int], w[SORT_QHASH as int]])[0]
        &&& w[r + 1] == h(seq![w[SORT_SNAP as int], w[SORT_QHASH as int]])[1]
        &&& w[r + 2] == h(seq![w[SORT_SNAP as int], w[SORT_QHASH as int]])[2]
        &&& base.passes(w) <==> h(sort_columns(w).ins)[0] == w[SORT_SNAP as int]
    } by {
        base.runs_canonical(w, h);
        assert(gather(w, seed@) =~= seq![w[SORT_SNAP as int], w[SORT_QHASH as int]]);
    }
    // Both columns have the same grand product.
    let mut prod_in: Target = one;
    let mut prod_out: Target = one;
    let mut i: usize = 0;
    while i < MAX_ROWS
        invariant
            i <= MAX_ROWS,
            b.grows(base, (12 * i) as nat),
            SORT_INPUTS <= base.n_wires <= 2000,
            r + 3 < base.n_wires,
            prod_in < b.n_wires,
            prod_out < b.n_wires,
            forall|w: Seq<u64>, h: FieldHash| #[trigger]
                b.runs(w, h) ==> base.runs(w, h) && products_hold(
                    w,
                    r,
                    prod_in,
                    prod_out,
                    i as int,
                ),
            forall|w: Seq<u64>| #[trigger] b.passes(w) <==> base.passes(w),
        decreases MAX_ROWS - i,
    {
        let next: (Target, Target) = product_gates(&mut b, i, r, prod_in, prod_out);
        prod_in = next.0;
        prod_out = next.1;
        i = i + 1;
    }
    b.connect(prod_in, prod_out);
    let ghost multiplied = b;
    // The sorted column is monotone.
    let mut i: usize = 0;
    while i < MAX_ROWS - 1
        invariant
            i <= MAX_ROWS - 1,
            b.grows(multiplied, i as nat),
            SORT_INPUTS <= multiplied.n_wires <= 4000,
            forall|w: Seq<u64>, h: FieldHash| #[trigger]
                b.runs(w, h) ==> multiplied.runs(w, h) && (b.passes(w) <==> multiplied.passes(w)
                    && forall|j: int|
                    0 <= j < i ==> #[trigger] sort_step(sort_columns(w), descending, j)),
        decreases MAX_ROWS - 1 - i,
    {
        step_gates(&mut b, i, descending);
        i = i + 1;
    }
    let ghost stepped = b;
    // Selectors are boolean, and the selected rows are added up.
    let mut sum: Target = zero;
    let mut count: Target = zero;
    let mut i: usize = 0;
    while i < MAX_ROWS
        invariant
            i <= MAX_ROWS,
            b.grows(stepped, (5 * i) as nat),
            SORT_INPUTS <= stepped.n_wires <= 5000,
            one < stepped.n_wires,
            zero < stepped.n_wires,
            sum < b.n_wires,
            count < b.n_wires,
            forall|w: Seq<u64>, h: FieldHash| #[trigger]
                stepped.runs(w, h) ==> w[one as int] == 1 && w[zero as int] == 0,
            forall|w: Seq<u64>, h: FieldHash| #[trigger]
                b.runs(w, h) ==> stepped.runs(w, h) && sort_sums_hold(w, sum, count, i as int) && (
                b.passes(w) <==> stepped.passes(w) && forall|j: int|
                    0 <= j < i ==> #[trigger] sort_columns(w).selectors[j] <= 1),
        decreases MAX_ROWS - i,
    {
        let next: (Target, Target) = select_gates(&mut b, i, one, zero, sum, count);
        sum = next.0;
        count = next.1;
        i = i + 1;
    }
    let ghost selected = b;
    // Commitments to the result and to the unsorted fingerprints.
    let mut result: Vec<Target> = Vec::new();
    result.push(sum);
    result.push(count);
    let result_hash: Target = b.hash(result);
    let h_sec_lo: Target = b.hash(column_targets(SORT_IN_LO, MAX_ROWS));
    let h_sec_hi: Target = b.hash(column_targets(SORT_IN_HI, MAX_ROWS));
    b.register_public_input(SORT_SNAP);
    b.register_public_input(SORT_QHASH);
    b.register_public_input(sum);
    b.register_public_input(count);
    b.register_public_input(result_hash);
    b.register_public_input(h_sec_lo);
    b.register_public_input(h_sec_hi);
    assert forall|w: Seq<u64>, h: FieldHash| #[trigger] b.runs(w, h) implies ({
        let c = sort_columns(w);
        let snap = w[SORT_SNAP as int];
        let qhash = w[SORT_QHASH as int];
        &&& b.passes(w) <==> sort_relation(h, c, snap, qhash, descending)
        &&& b.public_values(w) == sort_public(h, c, snap, qhash)
    }) by {
        b.runs_canonical(w, h);
        assert(selected.runs(w, h));
        assert(stepped.runs(w, h));
        assert(multiplied.runs(w, h));
        assert(base.runs(w, h));
        let c = sort_columns(w);
        let snap = w[SORT_SNAP as int];
        let qhash = w[SORT_QHASH as int];
        assert(gather(w, result@) =~= seq![w[sum as int], w[count as int]]);
        assert(b.public_values(w) =~= sort_public(h, c, snap, qhash));
        grand_product_challenge(
            c.ins,
            c.in_lo,
            c.in_hi,
            column(w, r, 4),
            h(seq![snap, qhash]),
            MAX_ROWS as int,
        );
        grand_product_challenge(
            c.outs,
            c.out_lo,
            c.out_hi,
            column(w, r, 4),
            h(seq![snap, qhash]),
            MAX_ROWS as int,
        );
    }
    b
}

/// A grand product depends on the first three challenges alone.
proof fn grand_product_challenge(
    v: Seq<u64>,
    lo: Seq<u64>,
    hi: Seq<u64>,
    r: Seq<u64>,
    q: Seq<u64>,
    n: int,
)
    requires
        r[0] == q[0],
        r[1] == q[1],
        r[2] == q[2],
    ensures
        grand_product(v, lo, hi, r, n) == grand_product(v, lo, hi, q, n),
    decreases n,
{
    if n > 0 {
        grand_product_challenge(v, lo, hi, r, q, n - 1);
    }
}

/// The rows of a sort, unsorted and sorted, with the fingerprints of their
/// payloads.
pub ghost struct SortRows {
    pub in_vals: Seq<u64>,
    pub out_vals: Seq<u64>,
    pub in_lo: Seq<u64>,
    pub out_lo: Seq<u64>,
    pub in_hi: Seq<u64>,
    pub out_hi: Seq<u64>,
}

/// The number of zeros before the sorted values: padding comes first where the
/// order is ascending, and last where it is descending.
pub open spec fn sort_pad(rows: SortRows, descending: bool) -> int {
    if descending {
        0
    } else {
        MAX_ROWS - rows_used(rows.in_vals.len())
    }
}

/// `a - b`, or zero where that is negative.
pub open spec fn saturating(a: u64, b: u64) -> u64 {
    if a >= b {
        (a - b) as u64
    } else {
        0
    }
}

/// The differences that the prover sets.
pub open spec fn sort_diffs(outs: Seq<u64>, descending: bool) -> Seq<u64> {
    Seq::new(
        (MAX_ROWS - 1) as nat,
        |i: int|
            if descending {
                saturating(outs[i], outs[i + 1])
            } else {
                saturating(outs[i + 1], outs[i])
            },
    )
}

/// The selectors that the prover sets.
pub open spec fn sort_selectors(rows: SortRows, descending: bool) -> Seq<u64> {
    Seq::new(
        MAX_ROWS as nat,
        |i: int|
            if descending {
                bit(i < rows.out_vals.len())
            } else {
                bit(i >= sort_pad(rows, descending))
            },
    )
}

/// The columns that the prover sets.
pub open spec fn sort_inputs(rows: SortRows, descending: bool) -> SortColumns {
    let n_pad = sort_pad(rows, descending);
    let outs = back(rows.out_vals, n_pad);
    SortColumns {
        ins: padded(rows.in_vals, MAX_ROWS as nat),
        outs: residues(outs),
        diffs: residues(sort_diffs(outs, descending)),
        selectors: sort_selectors(rows, descending),
        in_lo: padded(rows.in_lo, MAX_ROWS as nat),
        out_lo: residues(back(rows.out_lo, n_pad)),
        in_hi: padded(rows.in_hi, MAX_ROWS as nat),
        out_hi: residues(back(rows.out_hi, n_pad)),
    }
}

/// There are as many sorted as unsorted rows, and they meet the relation.
pub open spec fn sort_accepts(
    h: FieldHash,
    rows: SortRows,
    snap: u64,
    qhash: u64,
    descending: bool,
) -> bool {
    &&& rows.out_vals.len() == rows.in_vals.len()
    &&& sort_relation(h, sort_inputs(rows, descending), residue(snap), residue(qhash), descending)
}

/// The public inputs of a sort.
pub open spec fn sort_statement(
    h: FieldHash,
    rows: SortRows,
    snap: u64,
    qhash: u64,
    descending: bool,
) -> Seq<u64> {
    sort_public(h, sort_inputs(rows, descending), residue(snap), residue(qhash))
}

/// What a prover of a sort returns.
pub open spec fn sort_proved(
    h: FieldHash,
    s: ConstraintSystem,
    rows: SortRows,
    snap: u64,
    qhash: u64,
    descending: bool,
    r: Result<CircuitWitness, String>,
) -> bool {
    &&& r is Ok <==> sort_accepts(h, rows, snap, qhash, descending)
    &&& r matches Ok(p) ==> s.satisfied(p.wires@, h) && p.public_inputs@ == sort_statement(
        h,
        rows,
        snap,
        qhash,
        descending,
    )
}

/// Computes `a - b`, or zero where that is negative.
fn saturating_difference(a: u64, b: u64) -> (r: u64)
    ensures
        r == saturating(a, b),
{
    if a >= b {
        a - b
    } else {
        0
    }
}

/// Assigns the wires of a sort circuit, and tests the checks.
fn sort_solve<H: Fn(&Vec<u64>) -> [u64; 4]>(
    system: &ConstraintSystem,
    descending: bool,
    in_vals: &[u64],
    out_vals: &[u64],
    in_lo: &[u64],
    out_lo: &[u64],
    in_hi: &[u64],
    out_hi: &[u64],
    snap_lo: u64,
    qhash_lo: u64,
    hash: &H,
) -> (r: (CircuitWitness, bool))
    requires
        sort_system_wf(*system, descending),
        is_total(*hash),
    ensures
        ({
            let rows = SortRows {
                in_vals: in_vals@,
                out_vals: out_vals@,
                in_lo: in_lo@,
                out_lo: out_lo@,
                in_hi: in_hi@,
                out_hi: out_hi@,
            };
            forall|h: FieldHash| #[trigger]
                computes(*hash, h) ==> {
                    &&& r.1 <==> sort_relation(
                        h,
                        sort_inputs(rows, descending),
                        residue(snap_lo),
                        residue(qhash_lo),
                        descending,
                    )
                    &&& system.runs(r.0.wires@, h)
                    &&& r.0.public_inputs@ == sort_statement(
                        h,
                        rows,
                        snap_lo,
                        qhash_lo,
                        descending,
                    )
                }
        }),
        r.1 == system.passes(r.0.wires@),
        r.0.wires@.len() == system.n_wires,
        r.0.public_inputs@ == system.public_values(r.0.wires@),
{
    let ghost rows = SortRows {
        in_vals: in_vals@,
        out_vals: out_vals@,
        in_lo: in_lo@,
        out_lo: out_lo@,
        in_hi: in_hi@,
        out_hi: out_hi@,
    };
    let n_valid: usize = if in_vals.len() < MAX_ROWS {
        in_vals.len()
    } else {
        MAX_ROWS
    };
    let n_pad: usize = if descending {
        0
    } else {
        MAX_ROWS - n_valid
    };
    let mut outs: Vec<u64> = Vec::new();
    push_back(&mut outs, out_vals, n_pad);
    assert(outs@ =~= back(out_vals@, n_pad as int));
    let mut diffs: Vec<u64> = Vec::new();
    let mut i: usize = 0;
    while i < MAX_ROWS - 1
        invariant
            i <= MAX_ROWS - 1,
            outs@.len() == MAX_ROWS,
            diffs@.len() == i,
            forall|k: int| 0 <= k < i ==> #[trigger] diffs@[k] == sort_diffs(outs@, descending)[k],
        decreases MAX_ROWS - 1 - i,
    {
        let d: u64 = if descending {
            saturating_difference(outs[i], outs[i + 1])
        } else {
            saturating_difference(outs[i + 1], outs[i])
        };
        diffs.push(d);
        i = i + 1;
    }
    assert(diffs@ =~= sort_diffs(outs@, descending));
    let mut selectors: Vec<u64> = Vec::new();
    let mut i: usize = 0;
    while i < MAX_ROWS
        invariant
            i <= MAX_ROWS,
            n_pad == sort_pad(rows, descending),
            rows.out_vals == out_vals@,
            selectors@.len() == i,
            forall|k: int|
                0 <= k < i ==> #[trigger] selectors@[k] == sort_selectors(rows, descending)[k],
        decreases MAX_ROWS - i,
    {
        let chosen: bool = if descending {
            i < out_vals.len()
        } else {
            i >= n_pad
        };
        selectors.push(
            if chosen {
                1
            } else {
                0
            },
        );
        i = i + 1;
    }
    assert(selectors@ =~= sort_selectors(rows, descending));
    let mut inputs: Vec<u64> = Vec::new();
    push_front(&mut inputs, in_vals);
    push_all(&mut inputs, &outs);
    push_all(&mut inputs, &diffs);
    push_all(&mut inputs, &selectors);
    push_front(&mut inputs, in_lo);
    push_back(&mut inputs, out_lo, n_pad);
    push_front(&mut inputs, in_hi);
    push_back(&mut inputs, out_hi, n_pad);
    inputs.push(snap_lo);
    inputs.push(qhash_lo);
    let solved: (CircuitWitness, bool) = system.solve(&inputs, hash);
    proof {
        let w = solved.0.wires@;
        let n = SORT_INPUTS as int;
        system.inputs_exist();
        assert(inputs@.subrange(0, 128) =~= front(in_vals@));
        assert(inputs@.subrange(128, 256) =~= outs@);
        assert(inputs@.subrange(256, 383) =~= diffs@);
        assert(inputs@.subrange(383, 511) =~= selectors@);
        assert(inputs@.subrange(511, 639) =~= front(in_lo@));
        assert(inputs@.subrange(639, 767) =~= back(out_lo@, n_pad as int));
        assert(inputs@.subrange(767, 895) =~= front(in_hi@));
        assert(inputs@.subrange(895, 1023) =~= back(out_hi@, n_pad as int));
        input_column(w, inputs@, n, SORT_IN, front(in_vals@));
        input_column(w, inputs@, n, SORT_OUT, outs@);
        input_column(w, inputs@, n, SORT_DIFF, diffs@);
        input_column(w, inputs@, n, SORT_SELECTORS, selectors@);
        input_column(w, inputs@, n, SORT_IN_LO, front(in_lo@));
        input_column(w, inputs@, n, SORT_OUT_LO, back(out_lo@, n_pad as int));
        input_column(w, inputs@, n, SORT_IN_HI, front(in_hi@));
        input_column(w, inputs@, n, SORT_OUT_HI, back(out_hi@, n_pad as int));
        front_residues(in_vals@);
        front_residues(in_lo@);
        front_residues(in_hi@);
        assert(residues(selectors@) =~= selectors@);
        assert(sort_columns(w) == sort_inputs(rows, descending));
        assert forall|h: FieldHash| #[trigger] computes(*hash, h) implies ({
            &&& solved.1 <==> sort_relation(
                h,
                sort_inputs(rows, descending),
                residue(snap_lo),
                residue(qhash_lo),
                descending,
            )
            &&& solved.0.public_inputs@ == sort_statement(h, rows, snap_lo, qhash_lo, descending)
        }) by {
            assert(system.runs(w, h));
        }
    }
    solved
}

/// The circuit for ascending ORDER BY.
pub struct SortCircuit {
    pub system: ConstraintSystem,
}

impl SortCircuit {
    /// The system is that of an ascending sort.
    pub open spec fn wf(self) -> bool {
        sort_system_wf(self.system, false)
    }

    /// Builds the circuit.
    pub fn build() -> (c: SortCircuit)
        ensures
            c.wf(),
    {
        SortCircuit { system: sort_system(false) }
    }

    /// Assigns the circuit's wires. The fingerprints are optional: an empty
    /// slice stands for zeros. Fails where there are more or fewer sorted values
    /// than unsorted ones, the unsorted values do not hash to `snap_lo`, the
    /// grand products differ, or the sorted values do not ascend in steps below
    /// `DIFF_BOUND`.
    pub fn prove<H: Fn(&Vec<u64>) -> [u64; 4]>(
        &self,
        in_vals: &[u64],
        out_vals: &[u64],
        in_secondary_lo: &[u64],
        out_secondary_lo: &[u64],
        in_secondary_hi: &[u64],
        out_secondary_hi: &[u64],
        snap_lo: u64,
        qhash_lo: u64,
        hash: &H,
    ) -> (r: Result<CircuitWitness, String>)
        requires
            self.wf(),
            is_total(*hash),
        ensures
            ({
                let rows = SortRows {
                    in_vals: in_vals@,
                    out_vals: out_vals@,
                    in_lo: in_secondary_lo@,
                    out_lo: out_secondary_lo@,
                    in_hi: in_secondary_hi@,
                    out_hi: out_secondary_hi@,
                };
                forall|h: FieldHash| #[trigger]
                    computes(*hash, h) ==> sort_proved(
                        h,
                        self.system,
                        rows,
                        snap_lo,
                        qhash_lo,
                        false,
                        r,
                    )
            }),
            r matches Ok(p) ==> p.wires@.len() == self.system.n_wires && p.public_inputs@
                == self.system.public_values(p.wires@),
            out_vals@.len() != in_vals@.len() ==> r is Err,
            r matches Err(e) ==> e@ == "sort prove: constraints not satisfied"@,
    {
        if out_vals.len() != in_vals.len() {
            return Err("sort prove: constraints not satisfied".to_owned());
        }
        let solved: (CircuitWitness, bool) = sort_solve(
            &self.system,
            false,
            in_vals,
            out_vals,
            in_secondary_lo,
            out_secondary_lo,
            in_secondary_hi,
            out_secondary_hi,
            snap_lo,
            qhash_lo,
            hash,
        );
        if solved.1 {
            Ok(solved.0)
        } else {
            Err("sort prove: constraints not satisfied".to_owned())
        }
    }
}

/// The circuit for descending ORDER BY.
pub struct DescSortCircuit {
    pub system: ConstraintSystem,
}

impl DescSortCircuit {
    /// The system is that of a descending sort.
    pub open spec fn wf(self) -> bool {
        sort_system_wf(self.system, true)
    }

    /// Builds the circuit.
    pub fn build() -> (c: DescSortCircuit)
        ensures
            c.wf(),
    {
        DescSortCircuit { system: sort_system(true) }
    }

    /// Assigns the circuit's wires. The fingerprints are optional: an empty
    /// slice stands for zeros. Fails where there are more or fewer sorted values
    /// than unsorted ones, the unsorted values do not hash to `snap_lo`, the
    /// grand products differ, or the sorted values do not descend in steps below
    /// `DIFF_BOUND`.
    pub fn prove<H: Fn(&Vec<u64>) -> [u64; 4]>(
        &self,
        in_vals: &[u64],
        out_vals: &[u64],
        in_secondary_lo: &[u64],
        out_secondary_lo: &[u64],
        in_secondary_hi: &[u64],
        out_secondary_hi: &[u64],
        snap_lo: u64,
        qhash_lo: u64,
        hash: &H,
    ) -> (r: Result<CircuitWitness, String>)
        requires
            self.wf(),
            is_total(*hash),
        ensures
            ({
                let rows = SortRows {
                    in_vals: in_vals@,
                    out_vals: out_vals@,
                    in_lo: in_secondary_lo@,
                    out_lo: out_secondary_lo@,
                    in_hi: in_secondary_hi@,
                    out_hi: out_secondary_hi@,
                };
                forall|h: FieldHash| #[trigger]
                    computes(*hash, h) ==> sort_proved(
                        h,
                        self.system,
                        rows,
                        snap_lo,
                        qhash_lo,
                        true,
                        r,
                    )
            }),
            r matches Ok(p) ==> p.wires@.len() == self.system.n_wires && p.public_inputs@
                == self.system.public_values(p.wires@),
            out_vals@.len() != in_vals@.len() ==> r is Err,
            r matches Err(e) ==> e@ == "desc_sort prove: constraints not satisfied"@,
    {
        if out_vals.len() != in_vals.len() {
            return Err("desc_sort prove: constraints not satisfied".to_owned());
        }
        let solved: (CircuitWitness, bool) = sort_solve(
            &self.system,
            true,
            in_vals,
            out_vals,
            in_secondary_lo,
            out_secondary_lo,
            in_secondary_hi,
            out_secondary_hi,
            snap_lo,
            qhash_lo,
            hash,
        );
        if solved.1 {
            Ok(solved.0)
        } else {
            Err("desc_sort prove: constraints not satisfied".to_owned())
        }
    }
}

} // verus!
