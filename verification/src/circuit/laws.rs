//! What the sort and grouping circuits guarantee, and what they accept.

use vstd::arithmetic::div_mod::*;
use vstd::prelude::*;

use crate::circuit::agg::agg_row;
use crate::circuit::agg::agg_rows_determined;
use crate::circuit::agg::pred_bit;
use crate::circuit::agg::AggCircuit;
use crate::circuit::agg::AGG_PRED_OP;
use crate::circuit::agg::AGG_PRED_VAL;
use crate::circuit::agg::AGG_REAL_FLAGS;
use crate::circuit::agg::AGG_SELECTORS;
use crate::circuit::agg::AGG_SNAP;
use crate::circuit::agg::AGG_VALUES;
use crate::circuit::gadgets::column;
use crate::circuit::gadgets::dot;
use crate::circuit::gadgets::total;
use crate::circuit::gadgets::total_of_flags;
use crate::circuit::gadgets::total_of_prefix;
use crate::circuit::group_by::boundary_flags;
use crate::circuit::group_by::group_accepts;
use crate::circuit::group_by::group_columns;
use crate::circuit::group_by::group_count;
use crate::circuit::group_by::group_inputs;
use crate::circuit::group_by::group_output;
use crate::circuit::group_by::group_output_lo;
use crate::circuit::group_by::group_pad;
use crate::circuit::group_by::group_public;
use crate::circuit::group_by::group_relation;
use crate::circuit::group_by::group_row;
use crate::circuit::group_by::group_start;
use crate::circuit::group_by::group_starts;
use crate::circuit::group_by::group_statement;
use crate::circuit::group_by::group_step;
use crate::circuit::group_by::key_product;
use crate::circuit::group_by::GroupByCircuit;
use crate::circuit::group_by::GroupColumns;
use crate::circuit::group_by::GROUP_QHASH;
use crate::circuit::group_by::GROUP_SNAP;
use crate::circuit::inputs::back;
use crate::circuit::inputs::rows_used;
use crate::circuit::join::join_columns;
use crate::circuit::join::join_counts;
use crate::circuit::join::join_relation;
use crate::circuit::join::join_rows_determined;
use crate::circuit::join::JoinCircuit;
use crate::circuit::join::JoinColumns;
use crate::circuit::join::JOIN_QHASH;
use crate::circuit::join::JOIN_SNAP;
use crate::circuit::ordering::in_order;
use crate::circuit::permutation::colliding;
use crate::circuit::permutation::few_collisions;
use crate::circuit::permutation::product_of;
use crate::circuit::permutation::mapped_permutation;
use crate::circuit::permutation::padding_permutes;
use crate::circuit::permutation::product_of_permutation;
use crate::circuit::permutation::shift;
use crate::circuit::permutation::shifted_product;
use crate::circuit::permutation::sum_of;
use crate::circuit::permutation::sum_of_permutation;
use crate::circuit::sort::factor;
use crate::circuit::sort::grand_product;
use crate::circuit::sort::sort_accepts;
use crate::circuit::sort::sort_columns;
use crate::circuit::sort::sort_diffs;
use crate::circuit::sort::sort_inputs;
use crate::circuit::sort::sort_pad;
use crate::circuit::sort::sort_relation;
use crate::circuit::sort::sort_statement;
use crate::circuit::sort::sort_step;
use crate::circuit::sort::sort_system_wf;
use crate::circuit::sort::SortColumns;
use crate::circuit::sort::SortRows;
use crate::circuit::sort::DIFF_BOUND;
use crate::circuit::sort::SORT_QHASH;
use crate::circuit::sort::SORT_SNAP;
use crate::circuit::system::bit;
use crate::circuit::system::ConstraintSystem;
use crate::circuit::system::FieldHash;
use crate::commitment::poseidon::padded;
use crate::commitment::poseidon::snap_lo;
use crate::commitment::poseidon::MAX_ROWS;
use crate::field::reduced_sum;
use crate::field::residue;
use crate::field::residues;
use crate::field::MODULUS;

verus! {

/// The elements of a column, as numbers.
pub open spec fn elements(s: Seq<u64>) -> Seq<int> {
    Seq::new(s.len(), |i: int| s[i] as int)
}

/// The columns hold canonical values in every row.
pub open spec fn canonical_column(s: Seq<u64>) -> bool {
    s.len() == MAX_ROWS && forall|i: int| 0 <= i < s.len() ==> #[trigger] s[i] < MODULUS
}

/// Rows with their fingerprints folded into one element under two challenges.
pub open spec fn folded(v: Seq<u64>, lo: Seq<u64>, hi: Seq<u64>, r: Seq<u64>) -> Seq<int> {
    Seq::new(v.len(), |i: int| (v[i] + r[1] * lo[i] + r[2] * hi[i]) % (MODULUS as int))
}

/// A key product is a shifted product.
proof fn key_product_is_shifted(v: Seq<u64>, r: u64, n: int)
    requires
        0 <= n <= v.len(),
    ensures
        key_product(v, r, n) == shifted_product(elements(v).take(n), r as int),
    decreases n,
{
    let s = elements(v).take(n);
    if n > 0 {
        key_product_is_shifted(v, r, n - 1);
        assert(s.drop_last() =~= elements(v).take(n - 1));
        assert(s.last() == v[n - 1] as int);
    }
}

/// A grand product is, in the field, the shifted product of the folded rows.
proof fn grand_product_is_shifted(v: Seq<u64>, lo: Seq<u64>, hi: Seq<u64>, r: Seq<u64>, n: int)
    requires
        0 <= n <= v.len(),
    ensures
        grand_product(v, lo, hi, r, n) % (MODULUS as int) == shifted_product(
            folded(v, lo, hi, r).take(n),
            r[0] as int,
        ) % (MODULUS as int),
    decreases n,
{
    let p = MODULUS as int;
    let s = folded(v, lo, hi, r).take(n);
    if n > 0 {
        grand_product_is_shifted(v, lo, hi, r, n - 1);
        assert(s.drop_last() =~= folded(v, lo, hi, r).take(n - 1));
        let x = v[n - 1] + r[1] * lo[n - 1] + r[2] * hi[n - 1];
        assert(s.last() == x % p);
        let f = factor(v[n - 1], lo[n - 1], hi[n - 1], r);
        assert(f == x + r[0]);
        assert(f % p == (x % p + r[0]) % p) by {
            lemma_add_mod_noop(x, r[0] as int, p);
            lemma_add_mod_noop(x % p, r[0] as int, p);
        }
        let a = grand_product(v, lo, hi, r, n - 1);
        let b = shifted_product(s.drop_last(), r[0] as int);
        lemma_mul_mod_noop(a, f, p);
        lemma_mul_mod_noop(b, x % p + r[0], p);
    }
}

/// The products of two key columns agree under the challenge though the columns
/// are not permutations of each other.
pub open spec fn group_collides(c: GroupColumns, r: u64) -> bool {
    &&& elements(c.ins).to_multiset() != elements(c.outs).to_multiset()
    &&& key_product(c.ins, r, MAX_ROWS as int) % (MODULUS as int) == key_product(
        c.outs,
        r,
        MAX_ROWS as int,
    ) % (MODULUS as int)
}

/// Collisions of a grouping are rare: a challenge under which two columns of
/// keys collide is one of at most `MAX_ROWS` elements of the field, which are
/// fixed by the two columns.
pub proof fn group_collisions_are_few(c: GroupColumns, r: u64)
    requires
        canonical_column(c.ins),
        canonical_column(c.outs),
        r < MODULUS,
        group_collides(c, r),
    ensures
        ({
            let bad = colliding(elements(c.ins), elements(c.outs));
            bad.contains(r as int) && bad.finite() && bad.len() <= MAX_ROWS
        }),
{
    let a = elements(c.ins);
    let b = elements(c.outs);
    few_collisions(a, b);
    key_product_is_shifted(c.ins, r, MAX_ROWS as int);
    key_product_is_shifted(c.outs, r, MAX_ROWS as int);
    assert(a.take(MAX_ROWS as int) =~= a);
    assert(b.take(MAX_ROWS as int) =~= b);
}

/// A grouping proof binds its keys: the sorted keys are a permutation of the
/// unsorted ones, unless the two collide.
pub proof fn group_keys_bound(h: FieldHash, c: GroupColumns, snap: u64, qhash: u64)
    requires
        group_relation(h, c, snap, qhash),
    ensures
        elements(c.ins).to_multiset() == elements(c.outs).to_multiset() || group_collides(
            c,
            h(seq![snap, qhash])[0],
        ),
{
}

/// Full rows as triples.
pub open spec fn triples(v: Seq<u64>, lo: Seq<u64>, hi: Seq<u64>) -> Seq<(u64, u64, u64)> {
    Seq::new(v.len(), |i: int| (v[i], lo[i], hi[i]))
}

/// The unsorted rows, each with its fingerprint.
pub open spec fn rows_in(c: SortColumns) -> Seq<(u64, u64, u64)> {
    triples(c.ins, c.in_lo, c.in_hi)
}

/// The sorted rows, each with its fingerprint.
pub open spec fn rows_out(c: SortColumns) -> Seq<(u64, u64, u64)> {
    triples(c.outs, c.out_lo, c.out_hi)
}

/// The grand products of unsorted and sorted rows agree under the challenge
/// though the rows are not permutations of each other.
pub open spec fn sort_collides(c: SortColumns, r: Seq<u64>) -> bool {
    &&& rows_in(c).to_multiset() != rows_out(c).to_multiset()
    &&& grand_product(c.ins, c.in_lo, c.in_hi, r, MAX_ROWS as int) % (MODULUS as int)
        == grand_product(c.outs, c.out_lo, c.out_hi, r, MAX_ROWS as int) % (MODULUS as int)
}

/// Collisions of a sort are rare: where the rows collide, two different ones
/// fold into one element under the second and third challenge, or the first
/// challenge is one of at most `MAX_ROWS` elements of the field, which are fixed
/// by the folded rows.
pub proof fn sort_collisions_are_few(c: SortColumns, r: Seq<u64>)
    requires
        canonical_column(c.ins),
        canonical_column(c.outs),
        r[0] < MODULUS,
        sort_collides(c, r),
    ensures
        rows_collide(rows_in(c), rows_out(c), r) || ({
            let bad = colliding(
                folded(c.ins, c.in_lo, c.in_hi, r),
                folded(c.outs, c.out_lo, c.out_hi, r),
            );
            bad.contains(r[0] as int) && bad.finite() && bad.len() <= MAX_ROWS
        }),
{
    let a = folded(c.ins, c.in_lo, c.in_hi, r);
    let b = folded(c.outs, c.out_lo, c.out_hi, r);
    let f = |t: (u64, u64, u64)| fold_row(t, r);
    if a.to_multiset() != b.to_multiset() {
        assert forall|i: int| 0 <= i < a.len() implies 0 <= #[trigger] a[i] < MODULUS by {
            lemma_mod_bound(c.ins[i] + r[1] * c.in_lo[i] + r[2] * c.in_hi[i], MODULUS as int);
        }
        assert forall|i: int| 0 <= i < b.len() implies 0 <= #[trigger] b[i] < MODULUS by {
            lemma_mod_bound(c.outs[i] + r[1] * c.out_lo[i] + r[2] * c.out_hi[i], MODULUS as int);
        }
        few_collisions(a, b);
        grand_product_is_shifted(c.ins, c.in_lo, c.in_hi, r, MAX_ROWS as int);
        grand_product_is_shifted(c.outs, c.out_lo, c.out_hi, r, MAX_ROWS as int);
        assert(a.take(MAX_ROWS as int) =~= a);
        assert(b.take(MAX_ROWS as int) =~= b);
    } else if !rows_collide(rows_in(c), rows_out(c), r) {
        assert(rows_in(c).map_values(f) =~= a);
        assert(rows_out(c).map_values(f) =~= b);
        unfold_permutation(rows_in(c), rows_out(c), r);
    }
}

/// A sort proof binds its rows: the sorted ones are a permutation of the
/// unsorted ones, unless the two collide.
pub proof fn sort_rows_bound(
    h: FieldHash,
    c: SortColumns,
    snap: u64,
    qhash: u64,
    descending: bool,
)
    requires
        sort_relation(h, c, snap, qhash, descending),
    ensures
        rows_in(c).to_multiset() == rows_out(c).to_multiset() || sort_collides(
            c,
            h(seq![snap, qhash]),
        ),
{
}

/// Without fingerprints a folded row is the row's value, so that a sort proof
/// binds the values themselves.
pub proof fn folded_without_fingerprints(v: Seq<u64>, r: Seq<u64>)
    requires
        canonical_column(v),
    ensures
        folded(v, padded(Seq::empty(), MAX_ROWS as nat), padded(Seq::empty(), MAX_ROWS as nat), r)
            == elements(v),
{
    let zeros = padded(Seq::empty(), MAX_ROWS as nat);
    assert forall|i: int| 0 <= i < v.len() implies folded(v, zeros, zeros, r)[i] == elements(v)[i] by {
        assert(r[1] * 0 == 0);
        assert(r[2] * 0 == 0);
        assert(v[i] < MODULUS);
    }
    assert(folded(v, zeros, zeros, r) =~= elements(v));
}

/// No step of the sorted column leaves the range of canonical values.
pub open spec fn no_wrap(c: SortColumns, descending: bool) -> bool {
    forall|i: int|
        0 <= i < MAX_ROWS - 1 ==> #[trigger] c.diffs[i] + (if descending {
            c.outs[i + 1]
        } else {
            c.outs[i]
        }) < MODULUS
}

/// A sort proof shows order: the sorted column rises, or falls where the sort
/// is descending, unless a step wraps around the field.
pub proof fn sort_is_monotone(
    h: FieldHash,
    c: SortColumns,
    snap: u64,
    qhash: u64,
    descending: bool,
    i: int,
    j: int,
)
    requires
        sort_relation(h, c, snap, qhash, descending),
        no_wrap(c, descending),
        0 <= i <= j < MAX_ROWS,
    ensures
        if descending {
            c.outs[i] >= c.outs[j]
        } else {
            c.outs[i] <= c.outs[j]
        },
    decreases j - i,
{
    if i < j {
        sort_is_monotone(h, c, snap, qhash, descending, i, j - 1);
        assert(sort_step(c, descending, j - 1));
        let low = if descending {
            c.outs[j] as int
        } else {
            c.outs[j - 1] as int
        };
        assert(c.diffs[j - 1] + low < MODULUS);
        lemma_small_mod((low + c.diffs[j - 1]) as nat, MODULUS as nat);
    }
}

/// No step wraps around the field where the smallest sorted value leaves room
/// for all steps, as it does where there is padding.
pub proof fn no_wrap_from_below(
    h: FieldHash,
    c: SortColumns,
    snap: u64,
    qhash: u64,
    descending: bool,
)
    requires
        sort_relation(h, c, snap, qhash, descending),
        (if descending {
            c.outs[MAX_ROWS - 1]
        } else {
            c.outs[0]
        }) + MAX_ROWS * DIFF_BOUND < MODULUS,
    ensures
        no_wrap(c, descending),
{
    assert forall|i: int| 0 <= i < MAX_ROWS - 1 implies #[trigger] c.diffs[i] + (if descending {
        c.outs[i + 1]
    } else {
        c.outs[i]
    }) < MODULUS by {
        assert(sort_step(c, descending, i));
        if descending {
            climbs_down(h, c, snap, qhash, i + 1);
        } else {
            climbs_up(h, c, snap, qhash, i);
        }
    }
}

proof fn climbs_up(h: FieldHash, c: SortColumns, snap: u64, qhash: u64, i: int)
    requires
        sort_relation(h, c, snap, qhash, false),
        c.outs[0] + MAX_ROWS * DIFF_BOUND < MODULUS,
        0 <= i < MAX_ROWS,
    ensures
        c.outs[i] <= c.outs[0] + i * DIFF_BOUND,
    decreases i,
{
    if i > 0 {
        climbs_up(h, c, snap, qhash, i - 1);
        assert(sort_step(c, false, i - 1));
        lemma_small_mod((c.outs[i - 1] + c.diffs[i - 1]) as nat, MODULUS as nat);
    }
}

proof fn climbs_down(h: FieldHash, c: SortColumns, snap: u64, qhash: u64, i: int)
    requires
        sort_relation(h, c, snap, qhash, true),
        c.outs[MAX_ROWS - 1] + MAX_ROWS * DIFF_BOUND < MODULUS,
        0 <= i < MAX_ROWS,
    ensures
        c.outs[i] <= c.outs[MAX_ROWS - 1] + (MAX_ROWS - 1 - i) * DIFF_BOUND,
    decreases MAX_ROWS - i,
{
    if i < MAX_ROWS - 1 {
        climbs_down(h, c, snap, qhash, i + 1);
        assert(sort_step(c, true, i));
        lemma_small_mod((c.outs[i + 1] + c.diffs[i]) as nat, MODULUS as nat);
    }
}

/// The rows of a sort as triples of value and fingerprint halves; a fingerprint
/// that was not given is zero.
pub open spec fn row_triples(v: Seq<u64>, lo: Seq<u64>, hi: Seq<u64>) -> Seq<(u64, u64, u64)> {
    Seq::new(
        v.len(),
        |i: int|
            (
                v[i],
                if i < lo.len() {
                    lo[i]
                } else {
                    0
                },
                if i < hi.len() {
                    hi[i]
                } else {
                    0
                },
            ),
    )
}

/// Every word of a column is canonical.
pub open spec fn canonical_words(s: Seq<u64>) -> bool {
    forall|i: int| 0 <= i < s.len() ==> #[trigger] s[i] < MODULUS
}

/// The words are in order.
pub open spec fn ordered(s: Seq<u64>, descending: bool) -> bool {
    forall|i: int, j: int|
        0 <= i <= j < s.len() ==> in_order(#[trigger] s[i], #[trigger] s[j], descending)
}

/// Every word of a column is below the bound on differences.
pub open spec fn small_words(s: Seq<u64>) -> bool {
    forall|i: int| 0 <= i < s.len() ==> #[trigger] s[i] < DIFF_BOUND
}

/// The step from row `i` to row `i + 1` is in order and within bounds.
pub open spec fn step_within(outs: Seq<u64>, descending: bool, i: int) -> bool {
    if descending {
        outs[i + 1] <= outs[i] && outs[i] - outs[i + 1] < DIFF_BOUND
    } else {
        outs[i] <= outs[i + 1] && outs[i + 1] - outs[i] < DIFF_BOUND
    }
}

/// The rows of a sort are in order, in steps within bounds. Where there is
/// padding, the smallest value is one more such step away from zero.
pub open spec fn sorted_in_steps(outs: Seq<u64>, descending: bool) -> bool {
    &&& forall|i: int| 0 <= i < outs.len() - 1 ==> #[trigger] step_within(outs, descending, i)
    &&& 0 < outs.len() < MAX_ROWS ==> if descending {
        outs[outs.len() - 1] < DIFF_BOUND
    } else {
        outs[0] < DIFF_BOUND
    }
}

/// The factor of a triple.
spec fn triple_factor(r: Seq<u64>) -> spec_fn((u64, u64, u64)) -> int {
    |t: (u64, u64, u64)| factor(t.0, t.1, t.2, r)
}

/// A grand product is a product over triples.
proof fn grand_product_of_triples(
    v: Seq<u64>,
    lo: Seq<u64>,
    hi: Seq<u64>,
    r: Seq<u64>,
    n: int,
    t: Seq<(u64, u64, u64)>,
)
    requires
        0 <= n <= t.len(),
        forall|i: int| 0 <= i < n ==> #[trigger] t[i] == (v[i], lo[i], hi[i]),
    ensures
        grand_product(v, lo, hi, r, n) == product_of(t.take(n), triple_factor(r)),
    decreases n,
{
    if n > 0 {
        grand_product_of_triples(v, lo, hi, r, n - 1, t);
        assert(t.take(n).drop_last() =~= t.take(n - 1));
        assert(t.take(n).last() == t[n - 1]);
    }
}

/// At most `MAX_ROWS` canonical rows, as many sorted as unsorted.
pub open spec fn rows_given(rows: SortRows) -> bool {
    &&& rows.in_vals.len() == rows.out_vals.len()
    &&& rows.in_vals.len() <= MAX_ROWS
    &&& rows.in_lo.len() <= rows.in_vals.len()
    &&& rows.out_lo.len() <= rows.in_vals.len()
    &&& rows.in_hi.len() <= rows.in_vals.len()
    &&& rows.out_hi.len() <= rows.in_vals.len()
    &&& canonical_words(rows.in_vals)
    &&& canonical_words(rows.out_vals)
    &&& canonical_words(rows.in_lo)
    &&& canonical_words(rows.out_lo)
    &&& canonical_words(rows.in_hi)
    &&& canonical_words(rows.out_hi)
}

/// The sorted rows are a permutation of the unsorted ones, payload fingerprints
/// and all.
pub open spec fn rows_permuted(rows: SortRows) -> bool {
    row_triples(rows.in_vals, rows.in_lo, rows.in_hi).to_multiset() == row_triples(
        rows.out_vals,
        rows.out_lo,
        rows.out_hi,
    ).to_multiset()
}

/// At most `MAX_ROWS` canonical rows, of which the sorted ones are a permutation
/// of the unsorted ones, payload fingerprints and all, and are in order in steps
/// within bounds.
pub open spec fn sortable(rows: SortRows, descending: bool) -> bool {
    &&& rows_given(rows)
    &&& rows_permuted(rows)
    &&& sorted_in_steps(rows.out_vals, descending)
}

/// The triples of a padded column, with the padding after or before the rows.
proof fn padded_triples(v: Seq<u64>, lo: Seq<u64>, hi: Seq<u64>, pad_first: bool) -> (t: Seq<
    (u64, u64, u64),
>)
    requires
        v.len() <= MAX_ROWS,
        lo.len() <= v.len(),
        hi.len() <= v.len(),
        canonical_words(v),
        canonical_words(lo),
        canonical_words(hi),
    ensures
        t.len() == MAX_ROWS,
        ({
            let rows = row_triples(v, lo, hi);
            let zeros = Seq::new((MAX_ROWS - v.len()) as nat, |i: int| (0u64, 0u64, 0u64));
            t == if pad_first {
                zeros + rows
            } else {
                rows + zeros
            }
        }),
        ({
            let n_pad = if pad_first {
                MAX_ROWS - v.len()
            } else {
                0
            };
            forall|i: int|
                0 <= i < MAX_ROWS ==> #[trigger] t[i] == (
                    residues(back(v, n_pad))[i],
                    residues(back(lo, n_pad))[i],
                    residues(back(hi, n_pad))[i],
                )
        }),
{
    let rows = row_triples(v, lo, hi);
    let zeros = Seq::new((MAX_ROWS - v.len()) as nat, |i: int| (0u64, 0u64, 0u64));
    let t = if pad_first {
        zeros + rows
    } else {
        rows + zeros
    };
    let n_pad = if pad_first {
        MAX_ROWS - v.len()
    } else {
        0
    };
    assert forall|i: int| 0 <= i < MAX_ROWS implies #[trigger] t[i] == (
        residues(back(v, n_pad))[i],
        residues(back(lo, n_pad))[i],
        residues(back(hi, n_pad))[i],
    ) by {
        let k = i - n_pad;
        if 0 <= k < v.len() {
            assert(t[i] == rows[k]);
            assert(v[k] < MODULUS);
            if k < lo.len() {
                assert(lo[k] < MODULUS);
            }
            if k < hi.len() {
                assert(hi[k] < MODULUS);
            }
        }
    }
    t
}

/// Padding after the rows, taken either way.
proof fn padded_is_back(v: Seq<u64>)
    ensures
        padded(v, MAX_ROWS as nat) == residues(back(v, 0)),
{
    assert(padded(v, MAX_ROWS as nat) =~= residues(back(v, 0)));
}

/// The rows that the prover sets are permuted exactly where the given ones are.
proof fn padded_rows_permuted(rows: SortRows, descending: bool)
    requires
        rows_given(rows),
    ensures
        ({
            let c = sort_inputs(rows, descending);
            rows_in(c).to_multiset() == rows_out(c).to_multiset() <==> rows_permuted(rows)
        }),
{
    let c = sort_inputs(rows, descending);
    let s = row_triples(rows.in_vals, rows.in_lo, rows.in_hi);
    let t = row_triples(rows.out_vals, rows.out_lo, rows.out_hi);
    let zeros = Seq::new((MAX_ROWS - rows.in_vals.len()) as nat, |i: int| (0u64, 0u64, 0u64));
    let ins = padded_triples(rows.in_vals, rows.in_lo, rows.in_hi, false);
    let outs = padded_triples(rows.out_vals, rows.out_lo, rows.out_hi, !descending);
    padded_is_back(rows.in_vals);
    padded_is_back(rows.in_lo);
    padded_is_back(rows.in_hi);
    assert(rows_in(c) =~= ins);
    assert(rows_out(c) =~= outs);
    padding_permutes(s, t, zeros);
}

/// Permuted rows have the same grand product, however they are padded.
proof fn sortable_products(rows: SortRows, descending: bool, r: Seq<u64>)
    requires
        rows_given(rows),
        rows_permuted(rows),
    ensures
        ({
            let c = sort_inputs(rows, descending);
            grand_product(c.ins, c.in_lo, c.in_hi, r, MAX_ROWS as int) == grand_product(
                c.outs,
                c.out_lo,
                c.out_hi,
                r,
                MAX_ROWS as int,
            )
        }),
{
    let c = sort_inputs(rows, descending);
    let f = triple_factor(r);
    padded_rows_permuted(rows, descending);
    grand_product_of_triples(c.ins, c.in_lo, c.in_hi, r, MAX_ROWS as int, rows_in(c));
    grand_product_of_triples(c.outs, c.out_lo, c.out_hi, r, MAX_ROWS as int, rows_out(c));
    assert(rows_in(c).take(MAX_ROWS as int) =~= rows_in(c));
    assert(rows_out(c).take(MAX_ROWS as int) =~= rows_out(c));
    product_of_permutation(rows_in(c), rows_out(c), f);
}

/// Rows in order have steps that the circuit accepts.
proof fn sortable_step(rows: SortRows, descending: bool, i: int)
    requires
        rows.in_vals.len() == rows.out_vals.len(),
        rows.in_vals.len() <= MAX_ROWS,
        canonical_words(rows.out_vals),
        sorted_in_steps(rows.out_vals, descending),
        0 <= i < MAX_ROWS - 1,
    ensures
        sort_step(sort_inputs(rows, descending), descending, i),
{
    let n = rows.out_vals.len() as int;
    let n_pad = sort_pad(rows, descending);
    let words = back(rows.out_vals, n_pad);
    let k = i - n_pad;
    let outs = rows.out_vals;
    if 0 <= k < n {
        assert(outs[k] < MODULUS);
        assert(words[i] == outs[k]);
    } else {
        assert(words[i] == 0);
    }
    if 0 <= k + 1 < n {
        assert(outs[k + 1] < MODULUS);
        assert(words[i + 1] == outs[k + 1]);
    } else {
        assert(words[i + 1] == 0);
    }
    if 0 <= k < n - 1 {
        assert(step_within(outs, descending, k));
    }
    assert(step_within(words, descending, i));
    let c = sort_inputs(rows, descending);
    let d = sort_diffs(words, descending)[i];
    assert(c.outs[i] == words[i] && c.outs[i + 1] == words[i + 1]);
    assert(c.diffs[i] == d && d < DIFF_BOUND);
    lemma_small_mod(words[i] as nat, MODULUS as nat);
    lemma_small_mod(words[i + 1] as nat, MODULUS as nat);
}

/// What is sorted can be proved: where `snap_lo` is the commitment to the
/// unsorted values and the rows are sortable, the sort circuit accepts.
pub proof fn sort_complete(h: FieldHash, rows: SortRows, snap: u64, qhash: u64, descending: bool)
    requires
        sortable(rows, descending),
        snap < MODULUS,
        snap == snap_lo(h, MAX_ROWS as nat, rows.in_vals),
    ensures
        sort_accepts(h, rows, snap, qhash, descending),
{
    let c = sort_inputs(rows, descending);
    sortable_products(rows, descending, h(seq![snap, residue(qhash)]));
    assert forall|i: int| 0 <= i < MAX_ROWS - 1 implies #[trigger] sort_step(c, descending, i) by {
        sortable_step(rows, descending, i);
    }
}

/// Rows whose steps the circuit accepts are in order.
proof fn step_in_order(rows: SortRows, descending: bool, k: int)
    requires
        rows.in_vals.len() == rows.out_vals.len(),
        rows.in_vals.len() <= MAX_ROWS,
        canonical_words(rows.out_vals),
        0 <= k < rows.out_vals.len() - 1,
        sort_step(sort_inputs(rows, descending), descending, sort_pad(rows, descending) + k),
    ensures
        in_order(rows.out_vals[k], rows.out_vals[k + 1], descending),
{
    let n_pad = sort_pad(rows, descending);
    let words = back(rows.out_vals, n_pad);
    let i = n_pad + k;
    assert(words[i] == rows.out_vals[k]);
    assert(words[i + 1] == rows.out_vals[k + 1]);
    assert(rows.out_vals[k] < MODULUS);
    assert(rows.out_vals[k + 1] < MODULUS);
    if !in_order(words[i], words[i + 1], descending) {
        assert(sort_diffs(words, descending)[i] == 0);
    }
}

/// Rows that the circuit accepts are in order.
proof fn accepted_order(rows: SortRows, descending: bool, i: int, j: int)
    requires
        rows.in_vals.len() == rows.out_vals.len(),
        rows.in_vals.len() <= MAX_ROWS,
        canonical_words(rows.out_vals),
        forall|k: int|
            0 <= k < MAX_ROWS - 1 ==> #[trigger] sort_step(
                sort_inputs(rows, descending),
                descending,
                k,
            ),
        0 <= i <= j < rows.out_vals.len(),
    ensures
        in_order(rows.out_vals[i], rows.out_vals[j], descending),
    decreases j - i,
{
    if i < j {
        accepted_order(rows, descending, i, j - 1);
        assert(sort_step(
            sort_inputs(rows, descending),
            descending,
            sort_pad(rows, descending) + j - 1,
        ));
        step_in_order(rows, descending, j - 1);
    }
}

/// Small words in order rise or fall in steps within bounds.
proof fn small_steps(outs: Seq<u64>, descending: bool)
    requires
        small_words(outs),
        ordered(outs, descending),
    ensures
        sorted_in_steps(outs, descending),
{
    assert forall|i: int| 0 <= i < outs.len() - 1 implies #[trigger] step_within(
        outs,
        descending,
        i,
    ) by {
        assert(in_order(outs[i], outs[i + 1], descending));
        assert(outs[i] < DIFF_BOUND);
        assert(outs[i + 1] < DIFF_BOUND);
    }
    if outs.len() > 0 {
        assert(outs[0] < DIFF_BOUND);
        assert(outs[outs.len() - 1] < DIFF_BOUND);
    }
}

/// The sum of a padded column is the sum of its words.
proof fn padded_total(v: Seq<u64>, n_pad: int, m: int)
    requires
        0 <= n_pad,
        n_pad + v.len() <= MAX_ROWS,
        canonical_words(v),
        0 <= m <= MAX_ROWS,
    ensures
        total(residues(back(v, n_pad)), m) == total(
            v,
            if m < n_pad {
                0
            } else if m - n_pad < v.len() {
                m - n_pad
            } else {
                v.len() as int
            },
        ),
    decreases m,
{
    if m > 0 {
        padded_total(v, n_pad, m - 1);
        let k = m - 1 - n_pad;
        if 0 <= k < v.len() {
            assert(v[k] < MODULUS);
        }
    }
}

/// Where rows that are not selected are zero, the selected ones add up to all.
proof fn selected_total(v: Seq<u64>, s: Seq<u64>, n: int)
    requires
        forall|i: int| 0 <= i < n ==> #[trigger] s[i] == 1 || v[i] == 0,
    ensures
        dot(v, s, n) == total(v, n),
    decreases n,
{
    if n > 0 {
        selected_total(v, s, n - 1);
        assert(s[n - 1] == 1 || v[n - 1] == 0);
        assert(v[n - 1] * 1 == v[n - 1]);
        assert(0 * s[n - 1] == 0);
    }
}

/// At most `MAX_ROWS` small words have a canonical sum.
proof fn small_total(v: Seq<u64>, n: int)
    requires
        small_words(v),
        0 <= n <= v.len(),
        n <= MAX_ROWS,
    ensures
        0 <= total(v, n) <= n * DIFF_BOUND,
        total(v, n) < MODULUS,
    decreases n,
{
    if n > 0 {
        small_total(v, n - 1);
        assert(v[n - 1] < DIFF_BOUND);
    }
}

/// A sum over triples is the sum of the values.
proof fn triples_total(v: Seq<u64>, lo: Seq<u64>, hi: Seq<u64>, n: int)
    requires
        0 <= n <= v.len(),
    ensures
        sum_of(row_triples(v, lo, hi).take(n), |t: (u64, u64, u64)| t.0 as int) == total(v, n),
    decreases n,
{
    let t = row_triples(v, lo, hi).take(n);
    if n > 0 {
        triples_total(v, lo, hi, n - 1);
        assert(t.drop_last() =~= row_triples(v, lo, hi).take(n - 1));
    }
}

/// Permuted rows have the same sum.
proof fn permuted_total(rows: SortRows)
    requires
        rows.in_vals.len() == rows.out_vals.len(),
        rows_permuted(rows),
    ensures
        total(rows.in_vals, rows.in_vals.len() as int) == total(
            rows.out_vals,
            rows.out_vals.len() as int,
        ),
{
    let n = rows.in_vals.len() as int;
    let s = row_triples(rows.in_vals, rows.in_lo, rows.in_hi);
    let t = row_triples(rows.out_vals, rows.out_lo, rows.out_hi);
    let f = |t: (u64, u64, u64)| t.0 as int;
    sum_of_permutation(s, t, f);
    triples_total(rows.in_vals, rows.in_lo, rows.in_hi, n);
    triples_total(rows.out_vals, rows.out_lo, rows.out_hi, n);
    assert(s.take(n) =~= s);
    assert(t.take(n) =~= t);
}

/// Every step of the sorted column is one that the circuit accepts.
spec fn steps_accepted(rows: SortRows, descending: bool) -> bool {
    forall|i: int|
        0 <= i < MAX_ROWS - 1 ==> #[trigger] sort_step(
            sort_inputs(rows, descending),
            descending,
            i,
        )
}

/// The circuit accepts the steps of small words exactly where they are in order.
proof fn steps_of_order(rows: SortRows, descending: bool)
    requires
        rows.in_vals.len() == rows.out_vals.len(),
        rows.in_vals.len() <= MAX_ROWS,
        small_words(rows.out_vals),
    ensures
        steps_accepted(rows, descending) <==> ordered(rows.out_vals, descending),
{
    let outs = rows.out_vals;
    assert forall|i: int| 0 <= i < outs.len() implies #[trigger] outs[i] < MODULUS by {
        assert(outs[i] < DIFF_BOUND);
    }
    if ordered(outs, descending) {
        small_steps(outs, descending);
        assert forall|i: int| 0 <= i < MAX_ROWS - 1 implies #[trigger] sort_step(
            sort_inputs(rows, descending),
            descending,
            i,
        ) by {
            sortable_step(rows, descending, i);
        }
    }
    if steps_accepted(rows, descending) {
        assert forall|i: int, j: int| 0 <= i <= j < outs.len() implies in_order(
            #[trigger] outs[i],
            #[trigger] outs[j],
            descending,
        ) by {
            accepted_order(rows, descending, i, j);
        }
    }
}

/// When a sort is proved. Of at most `MAX_ROWS` canonical rows with small sorted
/// values, the prover accepts exactly those where `snap` is the commitment to the
/// unsorted values, the sorted values are in order, and the sorted rows are a
/// permutation of the unsorted ones, or collide with them.
pub proof fn sort_accepted_exactly(
    h: FieldHash,
    rows: SortRows,
    snap: u64,
    qhash: u64,
    descending: bool,
)
    requires
        rows_given(rows),
        small_words(rows.out_vals),
        snap < MODULUS,
        qhash < MODULUS,
    ensures
        sort_accepts(h, rows, snap, qhash, descending) <==> {
            &&& snap == snap_lo(h, MAX_ROWS as nat, rows.in_vals)
            &&& ordered(rows.out_vals, descending)
            &&& rows_permuted(rows) || sort_collides(
                sort_inputs(rows, descending),
                h(seq![snap, qhash]),
            )
        },
{
    let c = sort_inputs(rows, descending);
    padded_rows_permuted(rows, descending);
    if rows_permuted(rows) {
        sortable_products(rows, descending, h(seq![snap, qhash]));
    }
    steps_of_order(rows, descending);
    assert(forall|i: int| 0 <= i < MAX_ROWS ==> #[trigger] c.selectors[i] <= 1);
}

/// What the proof of a sort says. Of at most `MAX_ROWS` canonical rows with small
/// sorted values, its public inputs are `snap`, `qhash`, the sum of the sorted
/// values, which is that of the unsorted ones where the rows are permuted, the
/// number of rows, the commitment to these two, and the commitments to the
/// unsorted fingerprints.
pub proof fn sort_statement_exact(
    h: FieldHash,
    rows: SortRows,
    snap: u64,
    qhash: u64,
    descending: bool,
)
    requires
        rows_given(rows),
        small_words(rows.out_vals),
        snap < MODULUS,
        qhash < MODULUS,
    ensures
        ({
            let n = rows.in_vals.len() as int;
            let pis = sort_statement(h, rows, snap, qhash, descending);
            &&& pis.len() == 7
            &&& pis[0] == snap
            &&& pis[1] == qhash
            &&& pis[2] == total(rows.out_vals, n)
            &&& rows_permuted(rows) ==> pis[2] == total(rows.in_vals, n)
            &&& pis[3] == n
            &&& pis[4] == snap_lo(h, 2, seq![pis[2], pis[3]])
            &&& pis[5] == snap_lo(h, MAX_ROWS as nat, rows.in_lo)
            &&& pis[6] == snap_lo(h, MAX_ROWS as nat, rows.in_hi)
        }),
{
    let c = sort_inputs(rows, descending);
    let n = rows.in_vals.len() as int;
    let pis = sort_statement(h, rows, snap, qhash, descending);
    if rows_permuted(rows) {
        permuted_total(rows);
    }
    sort_count_exact(h, rows, snap, qhash, descending);
    padded_total(rows.out_vals, sort_pad(rows, descending), MAX_ROWS as int);
    assert forall|i: int| 0 <= i < MAX_ROWS implies #[trigger] c.selectors[i] == 1 || c.outs[i]
        == 0 by {}
    selected_total(c.outs, c.selectors, MAX_ROWS as int);
    small_total(rows.out_vals, n);
    lemma_small_mod(total(rows.out_vals, n) as nat, MODULUS as nat);
    assert(padded(seq![pis[2], pis[3]], 2) =~= seq![pis[2], pis[3]]);
}

/// A sort that is proved moves no value in or out: where the sorted values are
/// not a permutation of the unsorted ones, the prover refuses, but for rows that
/// collide.
pub proof fn sort_refused(h: FieldHash, rows: SortRows, snap: u64, qhash: u64, descending: bool)
    requires
        rows_given(rows),
        rows.in_vals.to_multiset() != rows.out_vals.to_multiset(),
    ensures
        sort_accepts(h, rows, snap, qhash, descending) ==> sort_collides(
            sort_inputs(rows, descending),
            h(seq![residue(snap), residue(qhash)]),
        ),
{
    let s = row_triples(rows.in_vals, rows.in_lo, rows.in_hi);
    let t = row_triples(rows.out_vals, rows.out_lo, rows.out_hi);
    padded_rows_permuted(rows, descending);
    if rows_permuted(rows) {
        let f = |t: (u64, u64, u64)| t.0;
        mapped_permutation(s, t, f);
        assert(s.map_values(f) =~= rows.in_vals);
        assert(t.map_values(f) =~= rows.out_vals);
    }
}

/// The two directions exclude each other: columns that meet the relation of the
/// ascending and of the descending circuit hold one value in all sorted rows.
proof fn both_directions(
    h: FieldHash,
    c: SortColumns,
    snap: u64,
    qhash: u64,
    i: int,
)
    requires
        canonical_column(c.outs),
        sort_relation(h, c, snap, qhash, false),
        sort_relation(h, c, snap, qhash, true),
        0 <= i < MAX_ROWS,
    ensures
        c.outs[i] == c.outs[0],
    decreases i,
{
    if i > 0 {
        both_directions(h, c, snap, qhash, i - 1);
        assert(sort_step(c, false, i - 1));
        assert(sort_step(c, true, i - 1));
        let p = MODULUS as int;
        let a = c.outs[i - 1] as int;
        let b = c.outs[i] as int;
        let d = c.diffs[i - 1] as int;
        assert(c.outs[i - 1] < MODULUS);
        assert(c.outs[i] < MODULUS);
        // Both steps have the difference d, so that 2d is zero in the field.
        if a + d < p {
            lemma_small_mod((a + d) as nat, p as nat);
        } else {
            lemma_mod_multiples_vanish(-1, a + d, p);
            lemma_small_mod((a + d - p) as nat, p as nat);
        }
        if b + d < p {
            lemma_small_mod((b + d) as nat, p as nat);
        } else {
            lemma_mod_multiples_vanish(-1, b + d, p);
            lemma_small_mod((b + d - p) as nat, p as nat);
        }
    }
}

/// A sort cannot be passed off as one of the other direction: an assignment that
/// satisfies the circuit of one direction and has two different sorted values
/// does not satisfy the circuit of the other.
pub proof fn other_direction_fails(
    ascending: ConstraintSystem,
    descending: ConstraintSystem,
    w: Seq<u64>,
    h: FieldHash,
    i: int,
    j: int,
)
    requires
        sort_system_wf(ascending, false),
        sort_system_wf(descending, true),
        0 <= i < MAX_ROWS,
        0 <= j < MAX_ROWS,
        sort_columns(w).outs[i] != sort_columns(w).outs[j],
    ensures
        !(ascending.satisfied(w, h) && descending.satisfied(w, h)),
{
    if ascending.satisfied(w, h) && descending.satisfied(w, h) {
        ascending.inputs_exist();
        ascending.runs_canonical(w, h);
        let c = sort_columns(w);
        let snap = w[SORT_SNAP as int];
        let qhash = w[SORT_QHASH as int];
        both_directions(h, c, snap, qhash, i);
        both_directions(h, c, snap, qhash, j);
    }
}

/// The public count of a sort is the number of rows.
pub proof fn sort_count_exact(
    h: FieldHash,
    rows: SortRows,
    snap: u64,
    qhash: u64,
    descending: bool,
)
    requires
        rows.in_vals.len() == rows.out_vals.len(),
    ensures
        sort_statement(h, rows, snap, qhash, descending)[3] == rows_used(rows.in_vals.len()),
{
    let s = sort_inputs(rows, descending).selectors;
    let n = rows_used(rows.in_vals.len());
    if descending {
        total_of_prefix(s, MAX_ROWS as int, rows.in_vals.len() as int);
    } else {
        total_of_suffix(s, MAX_ROWS as int, MAX_ROWS - n);
    }
}

/// A column of flags that are set exactly from `m` on.
proof fn total_of_suffix(a: Seq<u64>, n: int, m: int)
    requires
        0 <= n <= a.len(),
        0 <= m,
        forall|i: int| 0 <= i < n ==> #[trigger] a[i] == bit(i >= m),
    ensures
        total(a, n) == if n < m {
            0
        } else {
            n - m
        },
    decreases n,
{
    if n > 0 {
        total_of_suffix(a, n - 1, m);
        assert(a[n - 1] == bit(n - 1 >= m));
    }
}

/// Boundary flags mark exactly the steps at which the key changes.
pub proof fn group_boundaries_exact(h: FieldHash, c: GroupColumns, snap: u64, qhash: u64, i: int)
    requires
        canonical_column(c.outs),
        group_relation(h, c, snap, qhash),
        0 <= i < MAX_ROWS - 1,
    ensures
        c.flags[i] == bit(c.outs[i] != c.outs[i + 1]),
{
    let p = MODULUS as int;
    assert(group_step(c, i));
    assert(c.outs[i] < MODULUS);
    let x = c.outs[i] + c.diffs[i];
    if x < p {
        lemma_small_mod(x as nat, p as nat);
    } else {
        lemma_mod_multiples_vanish(-1, x, p);
        lemma_small_mod((x - p) as nat, p as nat);
    }
}

/// No step of the sorted keys leaves the range of canonical values.
pub open spec fn keys_do_not_wrap(c: GroupColumns) -> bool {
    forall|i: int| 0 <= i < MAX_ROWS - 1 ==> #[trigger] c.diffs[i] + c.outs[i] < MODULUS
}

/// The sorted keys of a grouping proof rise, unless a step wraps around the
/// field.
pub proof fn group_is_monotone(
    h: FieldHash,
    c: GroupColumns,
    snap: u64,
    qhash: u64,
    i: int,
    j: int,
)
    requires
        group_relation(h, c, snap, qhash),
        keys_do_not_wrap(c),
        0 <= i <= j < MAX_ROWS,
    ensures
        c.outs[i] <= c.outs[j],
    decreases j - i,
{
    if i < j {
        group_is_monotone(h, c, snap, qhash, i, j - 1);
        assert(group_step(c, j - 1));
        assert(c.diffs[j - 1] + c.outs[j - 1] < MODULUS);
        lemma_small_mod((c.outs[j - 1] + c.diffs[j - 1]) as nat, MODULUS as nat);
    }
}

/// The rows of a group stand together: between two rows of one key there is no
/// other key, unless a step wraps around the field.
pub proof fn group_rows_together(
    h: FieldHash,
    c: GroupColumns,
    snap: u64,
    qhash: u64,
    i: int,
    k: int,
    j: int,
)
    requires
        group_relation(h, c, snap, qhash),
        keys_do_not_wrap(c),
        0 <= i <= k <= j < MAX_ROWS,
        c.outs[i] == c.outs[j],
    ensures
        c.outs[k] == c.outs[i],
{
    group_is_monotone(h, c, snap, qhash, i, k);
    group_is_monotone(h, c, snap, qhash, k, j);
}

/// The keys of those of the first `n` rows that are real.
pub open spec fn real_keys(c: GroupColumns, n: int) -> Set<u64> {
    Set::new(
        |k: u64| exists|i: int| 0 <= i < n && c.selectors[i] == 1 && #[trigger] c.outs[i] == k,
    )
}

/// Before padding there is only padding.
proof fn padding_first(h: FieldHash, c: GroupColumns, snap: u64, qhash: u64, i: int, j: int)
    requires
        group_relation(h, c, snap, qhash),
        0 <= i <= j < MAX_ROWS,
        c.selectors[j] == 0,
    ensures
        c.selectors[i] == 0,
    decreases j - i,
{
    if i < j {
        assert(group_step(c, j - 1));
        padding_first(h, c, snap, qhash, i, j - 1);
    }
}

/// The number of groups is the number of different keys among the real rows,
/// unless a step wraps around the field.
proof fn starts_are_keys(h: FieldHash, c: GroupColumns, snap: u64, qhash: u64, n: int)
    requires
        canonical_column(c.outs),
        group_relation(h, c, snap, qhash),
        keys_do_not_wrap(c),
        0 <= n <= MAX_ROWS,
    ensures
        real_keys(c, n).finite(),
        real_keys(c, n).len() == group_starts(c, n),
        0 <= group_starts(c, n) <= n,
    decreases n,
{
    if n == 0 {
        assert(real_keys(c, 0) =~= Set::empty());
    } else {
        let m = n - 1;
        let before = real_keys(c, m);
        starts_are_keys(h, c, snap, qhash, m);
        assert(group_row(c, m));
        if c.selectors[m] == 0 {
            assert(real_keys(c, n) =~= before);
            assert(group_start(c, m) == 0) by (nonlinear_arith)
                requires
                    c.selectors[m] == 0,
                    group_start(c, m) == c.selectors[m] || group_start(c, m) == c.selectors[m] * (1
                        - c.selectors[m - 1] * (1 - c.flags[m - 1])),
            ;
        } else {
            assert(real_keys(c, n) =~= before.insert(c.outs[m])) by {
                assert forall|k: u64| real_keys(c, n).contains(k) == before.insert(
                    c.outs[m],
                ).contains(k) by {
                    if real_keys(c, n).contains(k) {
                        let i = choose|i: int|
                            0 <= i < n && c.selectors[i] == 1 && #[trigger] c.outs[i] == k;
                        assert(i < m ==> before.contains(k));
                    }
                }
            }
            if m == 0 {
                assert(before =~= Set::empty());
            } else if c.selectors[m - 1] == 0 {
                assert forall|k: u64| !before.contains(k) by {
                    if before.contains(k) {
                        let i = choose|i: int|
                            0 <= i < m && c.selectors[i] == 1 && #[trigger] c.outs[i] == k;
                        padding_first(h, c, snap, qhash, i, m - 1);
                    }
                }
                assert(before =~= Set::empty());
                assert(0 * (1 - c.flags[m - 1]) == 0);
                assert(group_start(c, m) == 1);
            } else {
                assert(group_row(c, m - 1));
                assert(group_step(c, m - 1));
                group_boundaries_exact(h, c, snap, qhash, m - 1);
                if c.outs[m - 1] == c.outs[m] {
                    assert(before.contains(c.outs[m]));
                    assert(before.insert(c.outs[m]) =~= before);
                    assert(group_start(c, m) == 0);
                } else {
                    if before.contains(c.outs[m]) {
                        let i = choose|i: int|
                            0 <= i < m && c.selectors[i] == 1 && #[trigger] c.outs[i] == c.outs[m];
                        group_rows_together(h, c, snap, qhash, i, m - 1, m);
                    }
                    assert(group_start(c, m) == 1);
                }
            }
        }
    }
}

/// The number of groups that a proof exposes is the number of different keys
/// among the real rows, unless a step wraps around the field.
pub proof fn group_count_exact(h: FieldHash, c: GroupColumns, snap: u64, qhash: u64)
    requires
        canonical_column(c.outs),
        group_relation(h, c, snap, qhash),
        keys_do_not_wrap(c),
    ensures
        real_keys(c, MAX_ROWS as int).finite(),
        group_public(h, c, snap, qhash)[4] == real_keys(c, MAX_ROWS as int).len(),
{
    starts_are_keys(h, c, snap, qhash, MAX_ROWS as int);
}

/// The sum of the values of rows `from` to `to`, both included.
pub open spec fn range_sum(vals: Seq<u64>, from: int, to: int) -> int
    decreases to - from,
{
    if to <= from {
        vals[from] as int
    } else {
        range_sum(vals, from, to - 1) + vals[to]
    }
}

/// A running sum is the sum of its group so far: if rows `from` to `i` have one
/// key, and `from` is the first row of that key, the running sum at `i` is the
/// sum of the values of those rows, in the field.
pub proof fn group_sum_exact(
    h: FieldHash,
    c: GroupColumns,
    snap: u64,
    qhash: u64,
    from: int,
    i: int,
)
    requires
        canonical_column(c.outs),
        canonical_column(c.vals),
        group_relation(h, c, snap, qhash),
        0 <= from <= i < MAX_ROWS,
        from == 0 || c.outs[from - 1] != c.outs[from],
        forall|k: int| from <= k <= i ==> #[trigger] c.outs[k] == c.outs[from],
    ensures
        c.sums[i] == range_sum(c.vals, from, i) % (MODULUS as int),
    decreases i - from,
{
    assert(c.vals[from] < MODULUS);
    if i == from {
        lemma_small_mod(c.vals[from] as nat, MODULUS as nat);
        if from > 0 {
            assert(group_step(c, from - 1));
            group_boundaries_exact(h, c, snap, qhash, from - 1);
        }
    } else {
        group_sum_exact(h, c, snap, qhash, from, i - 1);
        assert(group_step(c, i - 1));
        group_boundaries_exact(h, c, snap, qhash, i - 1);
        assert(c.outs[i - 1] == c.outs[from]);
        assert(c.outs[i] == c.outs[from]);
        reduced_sum(range_sum(c.vals, from, i - 1), c.vals[i] as int);
    }
}

/// At most `MAX_ROWS` canonical keys, as many sorted as unsorted.
pub open spec fn keys_given(in_keys: Seq<u64>, out_keys: Seq<u64>) -> bool {
    &&& in_keys.len() == out_keys.len()
    &&& in_keys.len() <= MAX_ROWS
    &&& canonical_words(in_keys)
    &&& canonical_words(out_keys)
}

/// The sorted keys are a permutation of the unsorted ones.
pub open spec fn keys_permuted(in_keys: Seq<u64>, out_keys: Seq<u64>) -> bool {
    elements(in_keys).to_multiset() == elements(out_keys).to_multiset()
}

/// The sorted keys of a grouping are a permutation of the unsorted ones, in
/// order in steps within bounds.
pub open spec fn groupable(in_keys: Seq<u64>, out_keys: Seq<u64>) -> bool {
    &&& keys_given(in_keys, out_keys)
    &&& keys_permuted(in_keys, out_keys)
    &&& sorted_in_steps(out_keys, false)
}

/// Sorted keys as the rows of a sort without fingerprints.
spec fn keys_as_rows(out_keys: Seq<u64>) -> SortRows {
    SortRows {
        in_vals: out_keys,
        out_vals: out_keys,
        in_lo: Seq::empty(),
        out_lo: Seq::empty(),
        in_hi: Seq::empty(),
        out_hi: Seq::empty(),
    }
}

/// Keys in order have steps that the circuit accepts.
proof fn groupable_step(in_keys: Seq<u64>, out_keys: Seq<u64>, vals: Seq<u64>, i: int)
    requires
        keys_given(in_keys, out_keys),
        sort_step(sort_inputs(keys_as_rows(out_keys), false), false, i),
        0 <= i < MAX_ROWS - 1,
    ensures
        group_step(group_inputs(in_keys, out_keys, vals), i),
{
    let c = group_inputs(in_keys, out_keys, vals);
    let n_pad = group_pad(in_keys.len());
    let outs = back(out_keys, n_pad);
    let values = back(vals, n_pad);
    let d = sort_diffs(outs, false)[i];
    let k = i - n_pad;
    if 0 <= k + 1 < out_keys.len() {
        assert(out_keys[k + 1] < MODULUS);
    }
    assert(d < MODULUS);
    lemma_add_mod_noop_right(c.sums[i] as int, values[i + 1] as int, MODULUS as int);
}

/// What is grouped can be proved: where `snap_lo` is the commitment to the
/// unsorted keys and the keys are groupable, the grouping circuit accepts.
pub proof fn group_complete(
    h: FieldHash,
    in_keys: Seq<u64>,
    out_keys: Seq<u64>,
    vals: Seq<u64>,
    snap: u64,
    qhash: u64,
)
    requires
        groupable(in_keys, out_keys),
        snap < MODULUS,
        snap == snap_lo(h, MAX_ROWS as nat, in_keys),
    ensures
        group_accepts(h, in_keys, out_keys, vals, snap, qhash),
{
    let c = group_inputs(in_keys, out_keys, vals);
    groupable_products(in_keys, out_keys, vals, h(seq![snap, residue(qhash)])[0]);
    assert forall|i: int| 0 <= i < MAX_ROWS - 1 implies #[trigger] group_step(c, i) by {
        sortable_step(keys_as_rows(out_keys), false, i);
        groupable_step(in_keys, out_keys, vals, i);
    }
    assert forall|i: int| 0 <= i < MAX_ROWS implies #[trigger] group_row(c, i) by {}
}

/// The circuit accepts the steps of small keys exactly where they are in order.
proof fn group_steps_of_order(in_keys: Seq<u64>, out_keys: Seq<u64>, vals: Seq<u64>)
    requires
        keys_given(in_keys, out_keys),
        small_words(out_keys),
    ensures
        ({
            let c = group_inputs(in_keys, out_keys, vals);
            (forall|i: int| 0 <= i < MAX_ROWS - 1 ==> #[trigger] group_step(c, i)) <==> ordered(
                out_keys,
                false,
            )
        }),
{
    let c = group_inputs(in_keys, out_keys, vals);
    let rows = keys_as_rows(out_keys);
    let s = sort_inputs(rows, false);
    steps_of_order(rows, false);
    if ordered(out_keys, false) {
        assert forall|i: int| 0 <= i < MAX_ROWS - 1 implies #[trigger] group_step(c, i) by {
            assert(sort_step(s, false, i));
            groupable_step(in_keys, out_keys, vals, i);
        }
    }
    if forall|i: int| 0 <= i < MAX_ROWS - 1 ==> #[trigger] group_step(c, i) {
        assert(s.outs == c.outs);
        assert(s.diffs == c.diffs);
        assert forall|i: int| 0 <= i < MAX_ROWS - 1 implies #[trigger] sort_step(s, false, i) by {
            assert(group_step(c, i));
        }
        assert(steps_accepted(rows, false));
    }
}

/// When a grouping is proved. Of at most `MAX_ROWS` canonical keys with small
/// sorted ones, the prover accepts exactly those where `snap` is the commitment
/// to the unsorted keys, the sorted keys ascend, and they are a permutation of
/// the unsorted ones, or collide with them.
pub proof fn group_accepted_exactly(
    h: FieldHash,
    in_keys: Seq<u64>,
    out_keys: Seq<u64>,
    vals: Seq<u64>,
    snap: u64,
    qhash: u64,
)
    requires
        keys_given(in_keys, out_keys),
        small_words(out_keys),
        snap < MODULUS,
        qhash < MODULUS,
    ensures
        group_accepts(h, in_keys, out_keys, vals, snap, qhash) <==> {
            &&& snap == snap_lo(h, MAX_ROWS as nat, in_keys)
            &&& ordered(out_keys, false)
            &&& keys_permuted(in_keys, out_keys) || group_collides(
                group_inputs(in_keys, out_keys, vals),
                h(seq![snap, qhash])[0],
            )
        },
{
    let c = group_inputs(in_keys, out_keys, vals);
    padded_keys_permuted(in_keys, out_keys, vals);
    if keys_permuted(in_keys, out_keys) {
        groupable_products(in_keys, out_keys, vals, h(seq![snap, qhash])[0]);
    }
    group_steps_of_order(in_keys, out_keys, vals);
    assert forall|i: int| 0 <= i < MAX_ROWS implies #[trigger] group_row(c, i) by {}
}

/// What the proof of a grouping says. Of at most `MAX_ROWS` keys with small
/// values, its public inputs are `snap`, `qhash`, the sum of the values, their
/// number, the number of groups, the commitment to the groups, the commitment to
/// sum and number, and the hash of the values after the padding.
pub proof fn group_statement_exact(
    h: FieldHash,
    in_keys: Seq<u64>,
    out_keys: Seq<u64>,
    vals: Seq<u64>,
    snap: u64,
    qhash: u64,
)
    requires
        in_keys.len() == out_keys.len(),
        in_keys.len() == vals.len(),
        in_keys.len() <= MAX_ROWS,
        canonical_words(out_keys),
        small_words(vals),
        snap < MODULUS,
        qhash < MODULUS,
    ensures
        ({
            let n = vals.len() as int;
            let pis = group_statement(h, in_keys, out_keys, vals, snap, qhash);
            &&& pis.len() == 8
            &&& pis[0] == snap
            &&& pis[1] == qhash
            &&& pis[2] == total(vals, n)
            &&& pis[3] == n
            &&& group_accepts(h, in_keys, out_keys, vals, snap, qhash) ==> pis[4] == group_count(
                out_keys,
            )
            &&& pis[5] == group_output_lo(h, out_keys, vals)
            &&& pis[6] == h(seq![pis[2], pis[3]])[0]
            &&& pis[7] == h(back(vals, MAX_ROWS - n))[0]
        }),
{
    let c = group_inputs(in_keys, out_keys, vals);
    let n = vals.len() as int;
    assert forall|i: int| 0 <= i < vals.len() implies #[trigger] vals[i] < MODULUS by {
        assert(vals[i] < DIFF_BOUND);
    }
    total_of_suffix(c.selectors, MAX_ROWS as int, MAX_ROWS - n);
    padded_total(vals, MAX_ROWS - n, MAX_ROWS as int);
    assert forall|i: int| 0 <= i < MAX_ROWS implies #[trigger] c.selectors[i] == 1 || c.vals[i]
        == 0 by {}
    selected_total(c.vals, c.selectors, MAX_ROWS as int);
    small_total(vals, n);
    lemma_small_mod(total(vals, n) as nat, MODULUS as nat);
    assert(residues(back(vals, MAX_ROWS - n)) =~= back(vals, MAX_ROWS - n));
    if group_accepts(h, in_keys, out_keys, vals, snap, qhash) {
        group_prover_counts(h, in_keys, out_keys, vals, snap, qhash);
    }
}

/// The prover's boundary flags of an ascending column mark exactly the steps at
/// which the key changes.
pub proof fn boundary_flags_exact(outs: Seq<u64>, i: int)
    requires
        0 <= i < MAX_ROWS - 1,
        outs[i] <= outs[i + 1],
    ensures
        boundary_flags(outs)[i] == bit(outs[i] != outs[i + 1]),
{
}

/// A grouping that is proved moves no key in or out: where the sorted keys are
/// not a permutation of the unsorted ones, the prover refuses, but for columns
/// that collide.
pub proof fn group_refused(
    h: FieldHash,
    in_keys: Seq<u64>,
    out_keys: Seq<u64>,
    vals: Seq<u64>,
    snap: u64,
    qhash: u64,
)
    requires
        keys_given(in_keys, out_keys),
        !keys_permuted(in_keys, out_keys),
    ensures
        group_accepts(h, in_keys, out_keys, vals, snap, qhash) ==> group_collides(
            group_inputs(in_keys, out_keys, vals),
            h(seq![residue(snap), residue(qhash)])[0],
        ),
{
    padded_keys_permuted(in_keys, out_keys, vals);
}

/// The number of groups that is proved of canonical keys is the number of
/// different ones among them.
pub proof fn group_prover_counts(
    h: FieldHash,
    in_keys: Seq<u64>,
    out_keys: Seq<u64>,
    vals: Seq<u64>,
    snap: u64,
    qhash: u64,
)
    requires
        canonical_words(out_keys),
        group_accepts(h, in_keys, out_keys, vals, snap, qhash),
    ensures
        group_statement(h, in_keys, out_keys, vals, snap, qhash)[4] == group_count(out_keys),
{
    let c = group_inputs(in_keys, out_keys, vals);
    let n_pad = group_pad(in_keys.len());
    prover_keys_do_not_wrap(in_keys, out_keys, vals);
    group_count_exact(h, c, residue(snap), residue(qhash));
    let keys = out_keys.take(rows_used(out_keys.len()));
    let all = real_keys(c, MAX_ROWS as int);
    assert forall|k: u64| all.contains(k) <==> keys.to_set().contains(k) by {
        if all.contains(k) {
            let i = choose|i: int|
                0 <= i < MAX_ROWS && c.selectors[i] == 1 && #[trigger] c.outs[i] == k;
            assert(keys[i - n_pad] == k);
        }
        if keys.contains(k) {
            let j = choose|j: int| 0 <= j < keys.len() && keys[j] == k;
            assert(c.outs[j + n_pad] == k);
            assert(c.selectors[j + n_pad] == 1);
        }
    }
    assert(all =~= keys.to_set());
}

/// No step of canonical keys wraps around the field.
pub proof fn prover_keys_do_not_wrap(in_keys: Seq<u64>, out_keys: Seq<u64>, vals: Seq<u64>)
    requires
        canonical_words(out_keys),
    ensures
        ({
            let c = group_inputs(in_keys, out_keys, vals);
            &&& c.outs == back(out_keys, group_pad(in_keys.len()))
            &&& canonical_column(c.outs)
            &&& keys_do_not_wrap(c)
        }),
{
    let c = group_inputs(in_keys, out_keys, vals);
    let n_pad = group_pad(in_keys.len());
    let words = back(out_keys, n_pad);
    assert forall|i: int| 0 <= i < MAX_ROWS implies #[trigger] words[i] < MODULUS by {
        if n_pad <= i < n_pad + out_keys.len() {
            assert(out_keys[i - n_pad] < MODULUS);
        }
    }
    assert(c.outs =~= words);
    assert forall|i: int| 0 <= i < MAX_ROWS - 1 implies #[trigger] c.diffs[i] + c.outs[i]
        < MODULUS by {
        assert(words[i] < MODULUS);
        assert(words[i + 1] < MODULUS);
    }
}

/// The keys that the prover sets are permuted exactly where the given ones are.
proof fn padded_keys_permuted(in_keys: Seq<u64>, out_keys: Seq<u64>, vals: Seq<u64>)
    requires
        keys_given(in_keys, out_keys),
    ensures
        ({
            let c = group_inputs(in_keys, out_keys, vals);
            elements(c.ins).to_multiset() == elements(c.outs).to_multiset() <==> keys_permuted(
                in_keys,
                out_keys,
            )
        }),
{
    let c = group_inputs(in_keys, out_keys, vals);
    let zeros = Seq::new((MAX_ROWS - in_keys.len()) as nat, |i: int| 0int);
    padded_keys(in_keys, out_keys, vals);
    padding_permutes(elements(in_keys), elements(out_keys), zeros);
}

/// The keys that the prover sets, with the padding after or before them.
proof fn padded_keys(in_keys: Seq<u64>, out_keys: Seq<u64>, vals: Seq<u64>)
    requires
        keys_given(in_keys, out_keys),
    ensures
        ({
            let c = group_inputs(in_keys, out_keys, vals);
            let zeros = Seq::new((MAX_ROWS - in_keys.len()) as nat, |i: int| 0int);
            &&& elements(c.ins) == elements(in_keys) + zeros
            &&& elements(c.outs) == zeros + elements(out_keys)
        }),
{
    let c = group_inputs(in_keys, out_keys, vals);
    let n_pad = group_pad(in_keys.len());
    let a = elements(in_keys);
    let b = elements(out_keys);
    let zeros = Seq::new((MAX_ROWS - in_keys.len()) as nat, |i: int| 0int);
    assert forall|i: int| 0 <= i < MAX_ROWS implies elements(c.ins)[i] == (a + zeros)[i] by {
        if i < in_keys.len() {
            assert(in_keys[i] < MODULUS);
        }
    }
    assert forall|i: int| 0 <= i < MAX_ROWS implies elements(c.outs)[i] == (zeros + b)[i] by {
        let k = i - n_pad;
        if 0 <= k < out_keys.len() {
            assert(out_keys[k] < MODULUS);
        }
    }
    assert(elements(c.ins) =~= a + zeros);
    assert(elements(c.outs) =~= zeros + b);
}

/// Permuted keys have the same product, however they are padded.
proof fn groupable_products(in_keys: Seq<u64>, out_keys: Seq<u64>, vals: Seq<u64>, r: u64)
    requires
        keys_given(in_keys, out_keys),
        keys_permuted(in_keys, out_keys),
    ensures
        ({
            let c = group_inputs(in_keys, out_keys, vals);
            key_product(c.ins, r, MAX_ROWS as int) == key_product(c.outs, r, MAX_ROWS as int)
        }),
{
    let c = group_inputs(in_keys, out_keys, vals);
    let f = shift(r as int);
    key_product_is_shifted(c.ins, r, MAX_ROWS as int);
    key_product_is_shifted(c.outs, r, MAX_ROWS as int);
    assert(elements(c.ins).take(MAX_ROWS as int) =~= elements(c.ins));
    assert(elements(c.outs).take(MAX_ROWS as int) =~= elements(c.outs));
    padded_keys_permuted(in_keys, out_keys, vals);
    product_of_permutation(elements(c.ins), elements(c.outs), f);
}

/// The commitment to the groups that a proof exposes is the one that is
/// computed from the sorted keys and their values.
pub proof fn group_output_agrees(
    h: FieldHash,
    in_keys: Seq<u64>,
    out_keys: Seq<u64>,
    vals: Seq<u64>,
    snap: u64,
    qhash: u64,
)
    requires
        in_keys.len() == out_keys.len(),
    ensures
        group_statement(h, in_keys, out_keys, vals, snap, qhash)[5] == group_output_lo(
            h,
            out_keys,
            vals,
        ),
{
}

/// The number of the first `n` values that meet the predicate.
pub open spec fn matching_count(v: Seq<u64>, op: u64, pred_val: u64, n: int) -> int
    decreases n,
{
    if n <= 0 {
        0
    } else {
        matching_count(v, op, pred_val, n - 1) + pred_bit(op, v[n - 1], pred_val)
    }
}

/// The sum of those of the first `n` values that meet the predicate.
pub open spec fn matching_sum(v: Seq<u64>, op: u64, pred_val: u64, n: int) -> int
    decreases n,
{
    if n <= 0 {
        0
    } else {
        matching_sum(v, op, pred_val, n - 1) + v[n - 1] * pred_bit(op, v[n - 1], pred_val)
    }
}

/// Rows from `n` on that are not selected add nothing to the totals.
proof fn totals_of_prefix(v: Seq<u64>, s: Seq<u64>, op: u64, pred_val: u64, n: int, m: int)
    requires
        0 <= n <= MAX_ROWS,
        0 <= m <= MAX_ROWS,
        forall|i: int| 0 <= i < n ==> #[trigger] s[i] == pred_bit(op, v[i], pred_val),
        forall|i: int| n <= i < MAX_ROWS ==> #[trigger] s[i] == 0,
    ensures
        ({
            let k = if m < n {
                m
            } else {
                n
            };
            &&& total(s, m) == matching_count(v, op, pred_val, k)
            &&& dot(v, s, m) == matching_sum(v, op, pred_val, k)
        }),
    decreases m,
{
    if m > 0 {
        totals_of_prefix(v, s, op, pred_val, n, m - 1);
        if m > n {
            assert(s[m - 1] == 0);
            assert(v[m - 1] * 0 == 0);
        } else {
            assert(s[m - 1] == pred_bit(op, v[m - 1], pred_val));
        }
    }
}

/// What an aggregation proof shows. Its values hash to the first public input;
/// the real rows come first, as many as the last public input says, and the
/// rest is zero; count and sum are those of the real rows that meet the public
/// predicate, no more and no fewer; and the result commitment is the hash of
/// the two.
pub proof fn agg_proof_shows(c: AggCircuit, w: Seq<u64>, h: FieldHash)
    requires
        c.wf(),
        c.system.satisfied(w, h),
    ensures
        ({
            let v = column(w, AGG_VALUES, MAX_ROWS as nat);
            let pis = c.system.public_values(w);
            let n = pis[7] as int;
            &&& pis.len() == 8
            &&& pis[0] == h(v)[0]
            &&& pis[5] <= 3
            &&& n <= MAX_ROWS
            &&& forall|i: int| n <= i < MAX_ROWS ==> #[trigger] v[i] == 0
            &&& pis[3] == matching_count(v, pis[5], pis[6], n)
            &&& pis[2] == matching_sum(v, pis[5], pis[6], n) % (MODULUS as int)
            &&& pis[4] == h(seq![pis[2], pis[3]])[0]
        }),
{
    c.system.inputs_exist();
    c.system.runs_canonical(w, h);
    let v = column(w, AGG_VALUES, MAX_ROWS as nat);
    let s = column(w, AGG_SELECTORS, MAX_ROWS as nat);
    let r = column(w, AGG_REAL_FLAGS, MAX_ROWS as nat);
    let snap = w[AGG_SNAP as int];
    let op = w[AGG_PRED_OP as int];
    let pred_val = w[AGG_PRED_VAL as int];
    let n = agg_rows_determined(h, v, s, r, snap, op, pred_val);
    totals_of_prefix(v, s, op, pred_val, n, MAX_ROWS as int);
    assert forall|i: int| 0 <= i < MAX_ROWS implies #[trigger] s[i] <= 1 by {
        assert(agg_row(v[i], s[i], r[i], op, pred_val));
    }
    total_of_flags(s, MAX_ROWS as int);
}

/// The number of the first `n` rows that are real and have equal keys.
pub open spec fn matched_count(c: JoinColumns, n: int) -> int
    decreases n,
{
    if n <= 0 {
        0
    } else {
        matched_count(c, n - 1) + bit(c.flags[n - 1] == 1 && c.left[n - 1] == c.right[n - 1])
    }
}

/// The sum of the left values of those of the first `n` rows that are real and
/// have equal keys.
pub open spec fn matched_sum(c: JoinColumns, n: int) -> int
    decreases n,
{
    if n <= 0 {
        0
    } else {
        matched_sum(c, n - 1) + c.vals[n - 1] * bit(
            c.flags[n - 1] == 1 && c.left[n - 1] == c.right[n - 1],
        )
    }
}

proof fn matched_totals(h: FieldHash, c: JoinColumns, snap: u64, n: int)
    requires
        join_relation(h, c, snap),
        0 <= n <= MAX_ROWS,
    ensures
        total(c.selectors, n) == matched_count(c, n),
        dot(c.vals, c.selectors, n) == matched_sum(c, n),
    decreases n,
{
    if n > 0 {
        matched_totals(h, c, snap, n - 1);
        join_rows_determined(h, c, snap, n - 1);
    }
}

/// What a join proof shows. Its left and right keys hash to the first and the
/// fifth public input; count and sum are those of the real rows whose keys
/// agree, no more and no fewer; the last public input counts all other rows;
/// and the result commitment is the hash of sum and count.
pub proof fn join_proof_shows(c: JoinCircuit, w: Seq<u64>, h: FieldHash)
    requires
        c.wf(),
        c.system.satisfied(w, h),
    ensures
        ({
            let k = join_columns(w);
            let pis = c.system.public_values(w);
            &&& pis.len() == 7
            &&& pis[0] == h(k.left)[0]
            &&& pis[4] == h(k.right)[0]
            &&& pis[3] == matched_count(k, MAX_ROWS as int)
            &&& pis[2] == matched_sum(k, MAX_ROWS as int) % (MODULUS as int)
            &&& pis[6] == MAX_ROWS - pis[3]
            &&& pis[5] == h(seq![pis[2], pis[3]])[0]
        }),
{
    c.system.inputs_exist();
    c.system.runs_canonical(w, h);
    let k = join_columns(w);
    let snap = w[JOIN_SNAP as int];
    matched_totals(h, k, snap, MAX_ROWS as int);
    join_counts(h, k, snap, w[JOIN_QHASH as int]);
}

/// What a grouping proof shows. Its keys hash to the first public input and its
/// values to the last. The real rows come last, as many as the fourth public
/// input says, and the rest is zero, so that the third is the sum of all values.
/// The number of groups is that of the different keys among the real rows, unless
/// a step wraps around the field. The sorted keys are a permutation of the keys,
/// unless the two collide.
pub proof fn group_proof_shows(c: GroupByCircuit, w: Seq<u64>, h: FieldHash)
    requires
        c.wf(),
        c.system.satisfied(w, h),
    ensures
        ({
            let k = group_columns(w);
            let pis = c.system.public_values(w);
            let n_pad = MAX_ROWS - pis[3];
            &&& pis.len() == 8
            &&& pis[0] == h(k.ins)[0]
            &&& pis[7] == h(k.vals)[0]
            &&& pis[5] == group_output(h, k.outs, k.sums, k.flags)
            &&& pis[3] <= MAX_ROWS
            &&& forall|i: int| n_pad <= i < MAX_ROWS ==> #[trigger] k.selectors[i] == 1
            &&& forall|i: int| 0 <= i < n_pad ==> #[trigger] k.outs[i] == 0
            &&& forall|i: int| 0 <= i < n_pad ==> #[trigger] k.vals[i] == 0
            &&& pis[2] == total(k.vals, MAX_ROWS as int) % (MODULUS as int)
            &&& keys_do_not_wrap(k) ==> pis[4] == real_keys(k, MAX_ROWS as int).len()
            &&& pis[6] == h(seq![pis[2], pis[3]])[0]
            &&& elements(k.ins).to_multiset() == elements(k.outs).to_multiset() || group_collides(
                k,
                h(seq![pis[0], pis[1]])[0],
            )
        }),
{
    c.system.inputs_exist();
    c.system.runs_canonical(w, h);
    let k = group_columns(w);
    let snap = w[GROUP_SNAP as int];
    let qhash = w[GROUP_QHASH as int];
    if keys_do_not_wrap(k) {
        group_count_exact(h, k, snap, qhash);
    }
    group_keys_bound(h, k, snap, qhash);
    let n = real_suffix(h, k, snap, qhash, MAX_ROWS as int);
    total_of_suffix(k.selectors, MAX_ROWS as int, n);
    assert forall|i: int| 0 <= i < MAX_ROWS implies #[trigger] k.selectors[i] == 1 || k.vals[i]
        == 0 by {
        assert(group_row(k, i));
    }
    selected_total(k.vals, k.selectors, MAX_ROWS as int);
    assert forall|i: int| 0 <= i < n implies #[trigger] k.outs[i] == 0 by {
        assert(group_row(k, i));
        assert(k.selectors[i] == bit(i >= n));
    }
    assert forall|i: int| 0 <= i < n implies #[trigger] k.vals[i] == 0 by {
        assert(group_row(k, i));
        assert(k.selectors[i] == bit(i >= n));
    }
}

/// The row at which the real rows among the first `m` start.
proof fn real_suffix(h: FieldHash, c: GroupColumns, snap: u64, qhash: u64, m: int) -> (n: int)
    requires
        group_relation(h, c, snap, qhash),
        0 <= m <= MAX_ROWS,
    ensures
        0 <= n <= m,
        forall|i: int| 0 <= i < m ==> #[trigger] c.selectors[i] == bit(i >= n),
    decreases m,
{
    if m == 0 {
        0
    } else {
        let n = real_suffix(h, c, snap, qhash, m - 1);
        assert(group_row(c, m - 1));
        if c.selectors[m - 1] == 0 {
            assert forall|i: int| 0 <= i < m implies #[trigger] c.selectors[i] == bit(i >= m) by {
                padding_first(h, c, snap, qhash, i, m - 1);
            }
            m
        } else {
            n
        }
    }
}

/// The element that a row folds into under the second and third challenge.
pub open spec fn fold_row(t: (u64, u64, u64), r: Seq<u64>) -> int {
    (t.0 + r[1] * t.1 + r[2] * t.2) % (MODULUS as int)
}

/// Two different rows, one of each list, fold into one element.
pub open spec fn rows_collide(
    a: Seq<(u64, u64, u64)>,
    b: Seq<(u64, u64, u64)>,
    r: Seq<u64>,
) -> bool {
    exists|i: int, j: int|
        0 <= i < a.len() && 0 <= j < b.len() && #[trigger] a[i] != #[trigger] b[j] && fold_row(
            a[i],
            r,
        ) == fold_row(b[j], r)
}

/// Rows whose folded elements are permuted are permuted, unless two different
/// ones fold into one element.
proof fn unfold_permutation(a: Seq<(u64, u64, u64)>, b: Seq<(u64, u64, u64)>, r: Seq<u64>)
    requires
        a.map_values(|t: (u64, u64, u64)| fold_row(t, r)).to_multiset() == b.map_values(
            |t: (u64, u64, u64)| fold_row(t, r),
        ).to_multiset(),
        !rows_collide(a, b, r),
    ensures
        a.to_multiset() == b.to_multiset(),
    decreases a.len(),
{
    let f = |t: (u64, u64, u64)| fold_row(t, r);
    let fa = a.map_values(f);
    let fb = b.map_values(f);
    fa.to_multiset_ensures();
    fb.to_multiset_ensures();
    a.to_multiset_ensures();
    b.to_multiset_ensures();
    if a.len() == 0 {
        assert(a =~= b);
    } else {
        let k = a.len() - 1;
        let x = fa[k];
        assert(fa.contains(x));
        assert(fa.to_multiset().count(x) > 0);
        assert(fb.contains(x));
        let j = choose|j: int| 0 <= j < fb.len() && fb[j] == x;
        assert(a[k] == b[j]);
        let a2 = a.remove(k);
        let b2 = b.remove(j);
        assert(a2.map_values(f) =~= fa.remove(k));
        assert(b2.map_values(f) =~= fb.remove(j));
        assert(fa.remove(k).to_multiset() =~= fb.remove(j).to_multiset());
        assert(!rows_collide(a2, b2, r)) by {
            if rows_collide(a2, b2, r) {
                let (i, m) = choose|i: int, m: int|
                    0 <= i < a2.len() && 0 <= m < b2.len() && #[trigger] a2[i] != #[trigger] b2[m]
                        && fold_row(a2[i], r) == fold_row(b2[m], r);
                let m2 = if m < j {
                    m
                } else {
                    m + 1
                };
                assert(a[i] == a2[i]);
                assert(b[m2] == b2[m]);
                assert(a[i] != b[m2]);
            }
        }
        unfold_permutation(a2, b2, r);
        assert(a.contains(a[k]) && b.contains(b[j]));
        assert(a.to_multiset() =~= a2.to_multiset().insert(a[k]));
        assert(b.to_multiset() =~= b2.to_multiset().insert(b[j]));
    }
}

/// What a sort proof shows, for the sort circuit of either direction. Its
/// unsorted values hash to the first public input, and the unsorted fingerprints
/// to the sixth and seventh. The sorted column is in order, unless a step wraps
/// around the field. The sorted rows, each with its fingerprint, are a
/// permutation of the unsorted ones, unless the two collide.
pub proof fn sort_proof_shows(s: ConstraintSystem, descending: bool, w: Seq<u64>, h: FieldHash)
    requires
        sort_system_wf(s, descending),
        s.satisfied(w, h),
    ensures
        ({
            let c = sort_columns(w);
            let pis = s.public_values(w);
            &&& pis.len() == 7
            &&& pis[0] == h(c.ins)[0]
            &&& pis[5] == h(c.in_lo)[0]
            &&& pis[6] == h(c.in_hi)[0]
            &&& no_wrap(c, descending) ==> ordered(c.outs, descending)
            &&& rows_in(c).to_multiset() == rows_out(c).to_multiset() || sort_collides(
                c,
                h(seq![pis[0], pis[1]]),
            )
        }),
{
    s.inputs_exist();
    s.runs_canonical(w, h);
    let c = sort_columns(w);
    let snap = w[SORT_SNAP as int];
    let qhash = w[SORT_QHASH as int];
    sort_rows_bound(h, c, snap, qhash, descending);
    if no_wrap(c, descending) {
        assert forall|i: int, j: int| 0 <= i <= j < MAX_ROWS implies in_order(
            #[trigger] c.outs[i],
            #[trigger] c.outs[j],
            descending,
        ) by {
            sort_is_monotone(h, c, snap, qhash, descending, i, j);
        }
    }
}

} // verus!
