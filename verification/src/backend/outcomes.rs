//! What the backend proves of a witness, said of the cells of its columns: which
//! witnesses each circuit accepts, and what the public inputs then are.

use vstd::arithmetic::div_mod::*;
use vstd::prelude::*;

use crate::backend::classify::TAG_AGG;
use crate::backend::classify::TAG_DESC_SORT;
use crate::backend::classify::TAG_GROUP_BY;
use crate::backend::classify::TAG_JOIN;
use crate::backend::classify::TAG_SORT;
use crate::backend::laws::witness_collides;
use crate::backend::plonky2::agg_values;
use crate::backend::plonky2::column_words;
use crate::backend::plonky2::group_in_keys;
use crate::backend::plonky2::group_values;
use crate::backend::plonky2::join_left_values;
use crate::backend::plonky2::join_right_keys;
use crate::backend::plonky2::join_selected;
use crate::backend::plonky2::sort_values;
use crate::backend::plonky2::witness_accepted;
use crate::backend::plonky2::witness_statement;
use crate::circuit::agg::agg_flags;
use crate::circuit::agg::agg_row;
use crate::circuit::agg::agg_selectors;
use crate::circuit::gadgets::dot;
use crate::circuit::gadgets::total;
use crate::circuit::gadgets::total_of_prefix;
use crate::circuit::group_by::boundary_flags;
use crate::circuit::group_by::group_inputs;
use crate::circuit::group_by::group_output_lo;
use crate::circuit::group_by::group_step;
use crate::circuit::group_by::running_sum;
use crate::circuit::group_by::running_sums;
use crate::circuit::inputs::back;
use crate::circuit::join::join_flags;
use crate::circuit::join::join_inputs;
use crate::circuit::join::join_row;
use crate::circuit::join::join_rows_determined;
use crate::circuit::laws::elements;
use crate::circuit::laws::group_accepted_exactly;
use crate::circuit::laws::group_complete;
use crate::circuit::laws::group_output_agrees;
use crate::circuit::laws::group_prover_counts;
use crate::circuit::laws::groupable;
use crate::circuit::laws::keys_given;
use crate::circuit::laws::ordered;
use crate::circuit::laws::row_triples;
use crate::circuit::laws::rows_given;
use crate::circuit::laws::small_words;
use crate::circuit::laws::sort_accepted_exactly;
use crate::circuit::laws::sort_complete;
use crate::circuit::laws::sortable;
use crate::circuit::laws::step_within;
use crate::circuit::ordering::in_order;
use crate::circuit::permutation::mapped_permutation;
use crate::circuit::sort::sort_diffs;
use crate::circuit::sort::sort_inputs;
use crate::circuit::sort::sort_pad;
use crate::circuit::sort::sort_step;
use crate::circuit::sort::SortColumns;
use crate::circuit::system::FieldHash;
use crate::circuit::witness::ColumnTrace;
use crate::circuit::witness::WitnessTrace;
use crate::commitment::poseidon::padded;
use crate::commitment::poseidon::root_lo;
use crate::commitment::poseidon::snap_lo;
use crate::commitment::poseidon::MAX_ROWS;
use crate::encoding::le_value;
use crate::field::reduced_sum;
use crate::field::residue;
use crate::field::residues;
use crate::field::MODULUS;

verus! {

/// The number of cells of column `k`.
pub open spec fn height(columns: Seq<ColumnTrace>, k: int) -> int {
    if k < columns.len() {
        columns[k].values@.len() as int
    } else {
        0
    }
}

/// The cell in row `i` of column `k`; where there is none, zero.
pub open spec fn cell(columns: Seq<ColumnTrace>, k: int, i: int) -> u64 {
    if 0 <= i < height(columns, k) {
        columns[k].values@[i].0
    } else {
        0
    }
}

/// The number of rows that a circuit takes of `n`.
pub open spec fn taken(n: int) -> int {
    if n < 128 {
        n
    } else {
        128
    }
}

/// The sum of `f` over the first `n` rows.
pub open spec fn sum_over(n: int, f: spec_fn(int) -> int) -> int
    decreases n,
{
    if n <= 0 {
        0
    } else {
        sum_over(n - 1, f) + f(n - 1)
    }
}

/// The number of the first `n` rows that meet `p`.
pub open spec fn count_over(n: int, p: spec_fn(int) -> bool) -> int {
    sum_over(
        n,
        |i: int|
            if p(i) {
                1
            } else {
                0
            },
    )
}

/// The field element of a word.
pub open spec fn element(v: u64) -> u64 {
    (v as int % 0xFFFF_FFFF_0000_0001) as u64
}

/// A column as the circuits hash it: 128 field elements, zeros at the end.
pub open spec fn hashed_column(columns: Seq<ColumnTrace>, k: int) -> Seq<u64> {
    Seq::new(128, |i: int| element(cell(columns, k, i)))
}

/// The number that the first eight bytes stand for, the lowest byte first.
pub open spec fn leading_word(b: Seq<u8>) -> int {
    b[0] + 0x100 * b[1] + 0x1_0000 * b[2] + 0x100_0000 * b[3] + 0x1_0000_0000 * b[4]
        + 0x100_0000_0000 * b[5] + 0x1_0000_0000_0000 * b[6] + 0x100_0000_0000_0000 * b[7]
}

/// The field element of the number in the first eight bytes.
pub open spec fn leading_element(b: Seq<u8>) -> int {
    leading_word(b) % 0xFFFF_FFFF_0000_0001
}

/// A value meets a predicate.
pub open spec fn meets(op: u64, v: u64, x: u64) -> bool {
    ||| op == 0
    ||| op == 1 && v == x
    ||| op == 2 && v < x
    ||| op == 3 && v > x
}

/// The first eight bytes of a root hold its number.
pub proof fn root_word(b: Seq<u8>)
    requires
        b.len() >= 8,
    ensures
        root_lo(b) == leading_word(b),
        residue(root_lo(b)) == leading_element(b),
{
    reveal_with_fuel(le_value, 9);
    let s = b.take(8);
    assert(s.skip(1).skip(1).skip(1).skip(1).skip(1).skip(1).skip(1).skip(1).len() == 0);
}

/// Two sums of equal summands are equal.
pub proof fn sum_over_same(n: int, f: spec_fn(int) -> int, g: spec_fn(int) -> int)
    requires
        forall|i: int| 0 <= i < n ==> #[trigger] f(i) == g(i),
    ensures
        sum_over(n, f) == sum_over(n, g),
    decreases n,
{
    if n > 0 {
        sum_over_same(n - 1, f, g);
        assert(f(n - 1) == g(n - 1));
    }
}

/// Rows from `n` on that add nothing.
pub proof fn sum_over_zeros(n: int, m: int, f: spec_fn(int) -> int)
    requires
        0 <= n <= m,
        forall|i: int| n <= i < m ==> #[trigger] f(i) == 0,
    ensures
        sum_over(m, f) == sum_over(n, f),
    decreases m,
{
    if n < m {
        sum_over_zeros(n, m - 1, f);
        assert(f(m - 1) == 0);
    }
}

/// A sum of flags is bounded.
pub proof fn count_over_bound(n: int, p: spec_fn(int) -> bool)
    requires
        0 <= n,
    ensures
        0 <= count_over(n, p) <= n,
    decreases n,
{
    if n > 0 {
        count_over_bound(n - 1, p);
    }
}

/// Sums of congruent summands are congruent.
pub proof fn sum_over_congruent(n: int, f: spec_fn(int) -> int, g: spec_fn(int) -> int)
    requires
        forall|i: int| 0 <= i < n ==> #[trigger] f(i) % (MODULUS as int) == g(i) % (MODULUS as int),
    ensures
        sum_over(n, f) % (MODULUS as int) == sum_over(n, g) % (MODULUS as int),
    decreases n,
{
    if n > 0 {
        let p = MODULUS as int;
        sum_over_congruent(n - 1, f, g);
        assert(f(n - 1) % p == g(n - 1) % p);
        lemma_add_mod_noop(sum_over(n - 1, f), f(n - 1), p);
        lemma_add_mod_noop(sum_over(n - 1, g), g(n - 1), p);
    }
}

/// A column total as a sum over rows.
pub proof fn total_is_sum(a: Seq<u64>, n: int)
    ensures
        total(a, n) == sum_over(n, |i: int| a[i] as int),
    decreases n,
{
    if n > 0 {
        total_is_sum(a, n - 1);
    }
}

/// A column product as a sum over rows.
pub proof fn dot_is_sum(a: Seq<u64>, b: Seq<u64>, n: int)
    ensures
        dot(a, b, n) == sum_over(n, |i: int| a[i] * b[i]),
    decreases n,
{
    if n > 0 {
        dot_is_sum(a, b, n - 1);
    }
}

/// The sum of the selected words of a column: where a word is selected by a flag,
/// the field's sum is that of the selected words.
pub proof fn selected_sum(
    a: Seq<u64>,
    s: Seq<u64>,
    n: int,
    v: spec_fn(int) -> u64,
    p: spec_fn(int) -> bool,
)
    requires
        0 <= n <= 128,
        forall|i: int| 0 <= i < 128 ==> #[trigger] a[i] == element(v(i)),
        forall|i: int|
            0 <= i < 128 ==> #[trigger] s[i] == if i < n && p(i) {
                1u64
            } else {
                0u64
            },
    ensures
        dot(a, s, 128) % (MODULUS as int) == sum_over(
            n,
            |i: int|
                if p(i) {
                    v(i) as int
                } else {
                    0
                },
        ) % (MODULUS as int),
        total(s, 128) == count_over(n, p),
        0 <= count_over(n, p) <= n,
{
    let m = MODULUS as int;
    let f = |i: int| a[i] * s[i];
    let g = |i: int|
        if i < n && p(i) {
            v(i) as int
        } else {
            0
        };
    let k = |i: int|
        if p(i) {
            v(i) as int
        } else {
            0
        };
    dot_is_sum(a, s, 128);
    assert forall|i: int| 0 <= i < 128 implies #[trigger] f(i) % m == g(i) % m by {
        assert(a[i] == element(v(i)));
        assert(a[i] * 1 == a[i]);
        assert(a[i] * 0 == 0);
        lemma_mod_twice(v(i) as int, m);
    }
    sum_over_congruent(128, f, g);
    sum_over_zeros(n, 128, g);
    sum_over_same(n, g, k);
    total_is_sum(s, 128);
    let c = |i: int| s[i] as int;
    let d = |i: int|
        if p(i) {
            1int
        } else {
            0
        };
    assert forall|i: int| n <= i < 128 implies #[trigger] c(i) == 0 by {
        assert(s[i] == 0);
    }
    sum_over_zeros(n, 128, c);
    assert forall|i: int| 0 <= i < n implies #[trigger] c(i) == d(i) by {
        assert(s[i] == if i < n && p(i) {
            1u64
        } else {
            0u64
        });
    }
    sum_over_same(n, c, d);
    count_over_bound(n, p);
}

/// What the circuits see of a column of a witness.
proof fn column_seen(columns: Seq<ColumnTrace>, k: int)
    requires
        0 <= k,
    ensures
        padded(column_words(columns, k), 128) == hashed_column(columns, k),
        column_words(columns, k).len() == height(columns, k),
        forall|i: int|
            0 <= i < height(columns, k) ==> #[trigger] column_words(columns, k)[i] == cell(
                columns,
                k,
                i,
            ),
{
    assert(padded(column_words(columns, k), 128) =~= hashed_column(columns, k));
}

/// The public inputs of an aggregate say what the query asks. Over the first 128
/// cells of the first column, the count is the number of those that meet the
/// predicate, and the sum is theirs in the field; the last public input is the
/// number of cells, whatever they hold. Snapshot, query and predicate are those of
/// the witness, and the result commitment is the hash of sum and count.
pub proof fn aggregate_counts_cells(h: FieldHash, w: WitnessTrace)
    ensures
        ({
            let n = taken(height(w.columns@, 0));
            let hit = |i: int| meets(w.filter_op, cell(w.columns@, 0, i), w.filter_val);
            let pis = witness_statement(h, TAG_AGG, w);
            &&& pis.len() == 8
            &&& pis[0] == leading_element(w.snapshot_root@)
            &&& pis[1] == leading_element(w.query_hash@)
            &&& pis[2] == sum_over(
                n,
                |i: int|
                    if hit(i) {
                        cell(w.columns@, 0, i) as int
                    } else {
                        0
                    },
            ) % 0xFFFF_FFFF_0000_0001
            &&& pis[3] == count_over(n, hit)
            &&& pis[4] == h(seq![pis[2], pis[3]])[0]
            &&& pis[5] == element(w.filter_op)
            &&& pis[6] == element(w.filter_val)
            &&& pis[7] == n
        }),
{
    let cols = w.columns@;
    let n = taken(height(cols, 0));
    let hit = |i: int| meets(w.filter_op, cell(cols, 0, i), w.filter_val);
    let values = agg_values(w);
    let a = padded(values, MAX_ROWS as nat);
    let s = agg_selectors(values, w.filter_op, w.filter_val);
    column_seen(cols, 0);
    root_word(w.snapshot_root@);
    root_word(w.query_hash@);
    assert(values.len() == n);
    assert forall|i: int| 0 <= i < n implies #[trigger] values[i] == cell(cols, 0, i) by {
        assert(column_words(cols, 0)[i] == cell(cols, 0, i));
    }
    let v = |i: int|
        if i < n {
            cell(cols, 0, i)
        } else {
            0
        };
    assert forall|i: int| 0 <= i < 128 implies #[trigger] a[i] == element(v(i)) by {}
    assert forall|i: int| 0 <= i < 128 implies #[trigger] s[i] == if i < n && hit(i) {
        1u64
    } else {
        0u64
    } by {
        if i < n {
            assert(values[i] == cell(cols, 0, i));
        }
    }
    selected_sum(a, s, n, v, hit);
    sum_over_same(
        n,
        |i: int|
            if hit(i) {
                v(i) as int
            } else {
                0
            },
        |i: int|
            if hit(i) {
                cell(cols, 0, i) as int
            } else {
                0
            },
    );
    let r = agg_flags(values);
    total_of_prefix(r, 128, n);
}

/// Which aggregates are proved: of a column and a predicate value that are
/// canonical, exactly those where the root holds the hash of the column and the
/// predicate is one of the four.
pub proof fn aggregate_accepted_exactly(h: FieldHash, w: WitnessTrace)
    requires
        forall|i: int| 0 <= i < 128 ==> #[trigger] cell(w.columns@, 0, i) < 0xFFFF_FFFF_0000_0001,
        w.filter_val < 0xFFFF_FFFF_0000_0001,
        w.filter_op < 0xFFFF_FFFF_0000_0001,
    ensures
        witness_accepted(h, TAG_AGG, w) <==> {
            &&& leading_element(w.snapshot_root@) == h(hashed_column(w.columns@, 0))[0]
            &&& w.filter_op <= 3
        },
{
    let cols = w.columns@;
    let values = agg_values(w);
    let a = padded(values, MAX_ROWS as nat);
    let s = agg_selectors(values, w.filter_op, w.filter_val);
    let r = agg_flags(values);
    column_seen(cols, 0);
    root_word(w.snapshot_root@);
    assert(a =~= hashed_column(cols, 0));
    if w.filter_op <= 3 {
        assert forall|i: int| 0 <= i < 128 implies agg_row(
            #[trigger] a[i],
            s[i],
            r[i],
            w.filter_op,
            w.filter_val,
        ) by {
            assert(cell(cols, 0, i) < 0xFFFF_FFFF_0000_0001);
            if i < values.len() {
                assert(values[i] == cell(cols, 0, i));
                assert(a[i] == cell(cols, 0, i));
            }
        }
        assert forall|i: int| 0 <= i < 127 implies (#[trigger] r[i] == 1 || r[i + 1] == 0) by {}
    }
}

/// A cell meets the predicate of a witness as a word exactly if it does as a field
/// element.
pub open spec fn met_alike(w: WitnessTrace, i: int) -> bool {
    let v = cell(w.columns@, 0, i);
    meets(w.filter_op, v, w.filter_val) == meets(
        element(w.filter_op),
        element(v),
        element(w.filter_val),
    )
}

/// Which aggregates are proved, whatever the words are: exactly those where the
/// root holds the hash of the column, the predicate is one of the four, and every
/// cell that the circuit takes meets it alike as a word and as a field element.
pub proof fn aggregate_accepted_in_general(h: FieldHash, w: WitnessTrace)
    ensures
        witness_accepted(h, TAG_AGG, w) <==> {
            &&& leading_element(w.snapshot_root@) == h(hashed_column(w.columns@, 0))[0]
            &&& element(w.filter_op) <= 3
            &&& forall|i: int|
                0 <= i < taken(height(w.columns@, 0)) ==> #[trigger] met_alike(w, i)
        },
{
    let cols = w.columns@;
    let n = taken(height(cols, 0));
    let values = agg_values(w);
    let a = padded(values, MAX_ROWS as nat);
    let s = agg_selectors(values, w.filter_op, w.filter_val);
    let r = agg_flags(values);
    let op = element(w.filter_op);
    let val = element(w.filter_val);
    column_seen(cols, 0);
    root_word(w.snapshot_root@);
    assert(a =~= hashed_column(cols, 0));
    assert(values.len() == n);
    if op <= 3 {
        assert forall|i: int| 0 <= i < 128 implies agg_row(#[trigger] a[i], s[i], r[i], op, val)
            == (i < n ==> met_alike(w, i)) by {
            if i < n {
                assert(values[i] == cell(cols, 0, i));
            }
        }
        assert forall|i: int| 0 <= i < 127 implies (#[trigger] r[i] == 1 || r[i + 1] == 0) by {}
        if witness_accepted(h, TAG_AGG, w) {
            assert forall|i: int| 0 <= i < n implies #[trigger] met_alike(w, i) by {
                assert(agg_row(a[i], s[i], r[i], op, val));
            }
        }
    }
}

/// The larger of two heights.
pub open spec fn longer(a: int, b: int) -> int {
    if a < b {
        b
    } else {
        a
    }
}

/// The column that holds the right keys of a join: the second, or the only one.
pub open spec fn right_column(columns: Seq<ColumnTrace>) -> int {
    if columns.len() <= 1 {
        0
    } else {
        1
    }
}

/// The value of row `i` that column `k` holds; without that column, every row of
/// the first column counts one.
pub open spec fn value_cell(columns: Seq<ColumnTrace>, k: int, i: int) -> u64 {
    if k < columns.len() {
        cell(columns, k, i)
    } else if 0 <= i < height(columns, 0) {
        1
    } else {
        0
    }
}

/// The keys of row `i` of a join agree, as field elements.
pub open spec fn keys_agree(columns: Seq<ColumnTrace>, i: int) -> bool {
    element(cell(columns, 0, i)) == element(cell(columns, right_column(columns), i))
}

/// The public inputs of a join say what the query asks. Over the first 128 rows,
/// the count is the number of those whose keys agree, and the sum is that of
/// their values, which the third column holds; the last public input counts all
/// other rows of the circuit. Both key columns are hashed.
pub proof fn join_counts_matches(h: FieldHash, w: WitnessTrace)
    requires
        witness_accepted(h, TAG_JOIN, w),
    ensures
        ({
            let cols = w.columns@;
            let n = taken(longer(height(cols, 0), height(cols, right_column(cols))));
            let pis = witness_statement(h, TAG_JOIN, w);
            &&& pis.len() == 7
            &&& pis[0] == leading_element(w.snapshot_root@)
            &&& pis[0] == h(hashed_column(cols, 0))[0]
            &&& pis[1] == leading_element(w.query_hash@)
            &&& pis[2] == sum_over(
                n,
                |i: int|
                    if keys_agree(cols, i) {
                        value_cell(cols, 2, i) as int
                    } else {
                        0
                    },
            ) % 0xFFFF_FFFF_0000_0001
            &&& pis[3] == count_over(n, |i: int| keys_agree(cols, i))
            &&& pis[4] == h(hashed_column(cols, right_column(cols)))[0]
            &&& pis[5] == h(seq![pis[2], pis[3]])[0]
            &&& pis[6] == 128 - pis[3]
        }),
{
    let cols = w.columns@;
    let rk = right_column(cols);
    let n = taken(longer(height(cols, 0), height(cols, rk)));
    let p = |i: int| keys_agree(cols, i);
    let v = |i: int| value_cell(cols, 2, i);
    let c = join_inputs(
        column_words(cols, 0),
        join_right_keys(w),
        join_left_values(w),
        join_selected(w),
    );
    let snap = residue(root_lo(w.snapshot_root@));
    column_seen(cols, 0);
    column_seen(cols, 1);
    column_seen(cols, 2);
    root_word(w.snapshot_root@);
    root_word(w.query_hash@);
    assert(join_right_keys(w) == column_words(cols, rk));
    assert(c.right == hashed_column(cols, rk));
    assert forall|i: int| 0 <= i < 128 implies #[trigger] c.vals[i] == element(v(i)) by {
        if cols.len() > 2 {
            assert(c.vals == hashed_column(cols, 2));
        }
    }
    assert forall|i: int| 0 <= i < 128 implies #[trigger] c.selectors[i] == if i < n && p(i) {
        1u64
    } else {
        0u64
    } by {
        join_rows_determined(h, c, snap, i);
        assert(c.left[i] == element(cell(cols, 0, i)));
        assert(c.right[i] == element(cell(cols, rk, i)));
    }
    selected_sum(c.vals, c.selectors, n, v, p);
    sum_over_same(
        n,
        |i: int|
            if p(i) {
                v(i) as int
            } else {
                0
            },
        |i: int|
            if keys_agree(cols, i) {
                value_cell(cols, 2, i) as int
            } else {
                0
            },
    );
}

/// Row `i` is selected. Where nothing is said of any row, those with a left key
/// are.
pub open spec fn picked(w: WitnessTrace, i: int) -> bool {
    if w.selected@.len() == 0 {
        i < height(w.columns@, 0)
    } else {
        i < w.selected@.len() && w.selected@[i]
    }
}

/// Row `i` is selected exactly where it has keys and they agree.
pub open spec fn selected_rightly(w: WitnessTrace, i: int) -> bool {
    let cols = w.columns@;
    let n = taken(longer(height(cols, 0), height(cols, right_column(cols))));
    picked(w, i) == (i < n && keys_agree(cols, i))
}

/// Which joins are proved: exactly those where the root holds the hash of the left
/// keys, and the selected rows are the rows whose keys agree.
pub proof fn join_accepted_exactly(h: FieldHash, w: WitnessTrace)
    ensures
        witness_accepted(h, TAG_JOIN, w) <==> {
            &&& leading_element(w.snapshot_root@) == h(hashed_column(w.columns@, 0))[0]
            &&& forall|i: int| 0 <= i < 128 ==> #[trigger] selected_rightly(w, i)
        },
{
    let cols = w.columns@;
    let rk = right_column(cols);
    let c = join_inputs(
        column_words(cols, 0),
        join_right_keys(w),
        join_left_values(w),
        join_selected(w),
    );
    column_seen(cols, 0);
    column_seen(cols, 1);
    root_word(w.snapshot_root@);
    assert(join_right_keys(w) == column_words(cols, rk));
    assert(c.left == hashed_column(cols, 0));
    assert(c.right == hashed_column(cols, rk));
    assert forall|i: int| 0 <= i < 128 implies (#[trigger] join_row(c, i) <==> selected_rightly(
        w,
        i,
    )) by {
        assert(c.left[i] == element(cell(cols, 0, i)));
        assert(c.right[i] == element(cell(cols, rk, i)));
    }
    assert forall|i: int| 0 <= i < 127 implies #[trigger] join_flags(c, i) by {}
    if witness_accepted(h, TAG_JOIN, w) {
        assert forall|i: int| 0 <= i < 128 implies #[trigger] selected_rightly(w, i) by {
            assert(join_row(c, i));
        }
    }
    if forall|i: int| 0 <= i < 128 ==> #[trigger] selected_rightly(w, i) {
        assert forall|i: int| 0 <= i < 128 implies #[trigger] join_row(c, i) by {
            assert(selected_rightly(w, i));
        }
    }
}

/// A sum over rows that stand after `pad` others.
proof fn sum_over_shift(n: int, pad: int, f: spec_fn(int) -> int)
    requires
        0 <= n,
        0 <= pad,
    ensures
        sum_over(
            n + pad,
            |i: int|
                if i >= pad {
                    f(i - pad)
                } else {
                    0
                },
        ) == sum_over(n, f),
    decreases n,
{
    let g = |i: int|
        if i >= pad {
            f(i - pad)
        } else {
            0
        };
    if n == 0 {
        sum_over_zeros(0, pad, g);
    } else {
        sum_over_shift(n - 1, pad, f);
        assert(g(n - 1 + pad) == f(n - 1));
    }
}

/// The field's sum and number of the rows after `pad` rows of padding.
proof fn suffix_sum(a: Seq<u64>, s: Seq<u64>, pad: int, v: spec_fn(int) -> u64)
    requires
        0 <= pad <= 128,
        forall|i: int|
            0 <= i < 128 ==> #[trigger] a[i] == if i >= pad {
                element(v(i - pad))
            } else {
                0
            },
        forall|i: int|
            0 <= i < 128 ==> #[trigger] s[i] == if i >= pad {
                1u64
            } else {
                0u64
            },
    ensures
        dot(a, s, 128) % (MODULUS as int) == sum_over(128 - pad, |i: int| v(i) as int) % (
        MODULUS as int),
        total(s, 128) == 128 - pad,
{
    let u = |i: int|
        if i >= pad {
            v(i - pad)
        } else {
            0u64
        };
    let p = |i: int| i >= pad;
    let f = |i: int| v(i) as int;
    selected_sum(a, s, 128, u, p);
    sum_over_same(
        128,
        |i: int|
            if p(i) {
                u(i) as int
            } else {
                0
            },
        |i: int|
            if i >= pad {
                f(i - pad)
            } else {
                0
            },
    );
    sum_over_shift(128 - pad, pad, f);
    let one = |i: int| 1int;
    sum_over_same(
        128,
        |i: int|
            if p(i) {
                1
            } else {
                0
            },
        |i: int|
            if i >= pad {
                one(i - pad)
            } else {
                0
            },
    );
    sum_over_shift(128 - pad, pad, one);
    ones_add_up(128 - pad);
}

proof fn ones_add_up(n: int)
    requires
        0 <= n,
    ensures
        sum_over(n, |i: int| 1int) == n,
    decreases n,
{
    if n > 0 {
        ones_add_up(n - 1);
    }
}

/// The public inputs of a sort say what was sorted. The count is the number of
/// cells of the sorted column, at most 128, and the sum is theirs in the field;
/// the unsorted values and both halves of the unsorted fingerprints are hashed,
/// column by column.
pub proof fn sort_counts_cells(h: FieldHash, w: WitnessTrace, descending: bool)
    requires
        witness_accepted(
            h,
            if descending {
                TAG_DESC_SORT
            } else {
                TAG_SORT
            },
            w,
        ),
    ensures
        ({
            let n = taken(height(w.columns@, 0));
            let pis = witness_statement(
                h,
                if descending {
                    TAG_DESC_SORT
                } else {
                    TAG_SORT
                },
                w,
            );
            &&& height(w.input_columns@, 0) > 0 ==> {
                &&& height(w.columns@, 0) == height(w.input_columns@, 0)
                &&& pis[0] == h(hashed_column(w.input_columns@, 0))[0]
            }
            &&& pis.len() == 7
            &&& pis[0] == leading_element(w.snapshot_root@)
            &&& pis[1] == leading_element(w.query_hash@)
            &&& pis[2] == sum_over(n, |i: int| cell(w.columns@, 0, i) as int)
                % 0xFFFF_FFFF_0000_0001
            &&& pis[3] == n
            &&& pis[4] == h(seq![pis[2], pis[3]])[0]
            &&& pis[5] == h(hashed_column(w.input_columns@, 1))[0]
            &&& pis[6] == h(hashed_column(w.input_columns@, 2))[0]
        }),
{
    let outs = w.columns@;
    let ins = w.input_columns@;
    let n = taken(height(outs, 0));
    let rows = sort_values(w);
    let c = sort_inputs(rows, descending);
    let v = |i: int| cell(outs, 0, i);
    column_seen(outs, 0);
    column_seen(ins, 0);
    column_seen(ins, 1);
    column_seen(ins, 2);
    root_word(w.snapshot_root@);
    root_word(w.query_hash@);
    if height(outs, 0) == 0 {
        assert(column_words(outs, 0).reverse() =~= column_words(outs, 0));
        assert(rows.in_vals =~= column_words(ins, 0));
    }
    if descending {
        let p = |i: int| i < n;
        assert forall|i: int| 0 <= i < 128 implies #[trigger] c.outs[i] == element(v(i)) by {}
        selected_sum(c.outs, c.selectors, n, v, p);
        sum_over_same(
            n,
            |i: int|
                if p(i) {
                    v(i) as int
                } else {
                    0
                },
            |i: int| cell(outs, 0, i) as int,
        );
        sum_over_same(
            n,
            |i: int|
                if p(i) {
                    1
                } else {
                    0
                },
            |i: int| 1int,
        );
        ones_add_up(n);
    } else {
        suffix_sum(c.outs, c.selectors, 128 - n, v);
        sum_over_same(n, |i: int| v(i) as int, |i: int| cell(outs, 0, i) as int);
    }
}

/// The public inputs of a grouping say what was grouped. The count is the number
/// of sorted keys, at most 128, and the sum is that of their values, which the
/// second column holds; the unsorted keys are hashed, and so are the values after
/// the padding.
pub proof fn group_counts_cells(h: FieldHash, w: WitnessTrace)
    requires
        witness_accepted(h, TAG_GROUP_BY, w),
    ensures
        ({
            let n = taken(height(w.columns@, 0));
            let pis = witness_statement(h, TAG_GROUP_BY, w);
            &&& w.input_columns@.len() > 0 ==> {
                &&& height(w.columns@, 0) == height(w.input_columns@, 0)
                &&& pis[0] == h(hashed_column(w.input_columns@, 0))[0]
            }
            &&& pis.len() == 8
            &&& pis[0] == leading_element(w.snapshot_root@)
            &&& pis[1] == leading_element(w.query_hash@)
            &&& pis[2] == sum_over(n, |i: int| value_cell(w.columns@, 1, i) as int)
                % 0xFFFF_FFFF_0000_0001
            &&& pis[3] == n
            &&& pis[6] == h(seq![pis[2], pis[3]])[0]
            &&& pis[7] == h(
                Seq::new(128, |i: int| element(value_cell(w.columns@, 1, i - (128 - n)))),
            )[0]
        }),
{
    let cols = w.columns@;
    let n = taken(height(cols, 0));
    let c = group_inputs(group_in_keys(w), column_words(cols, 0), group_values(w));
    let v = |i: int| value_cell(cols, 1, i);
    column_seen(cols, 0);
    column_seen(cols, 1);
    column_seen(w.input_columns@, 0);
    root_word(w.snapshot_root@);
    root_word(w.query_hash@);
    assert forall|i: int| 0 <= i < 128 implies #[trigger] c.vals[i] == if i >= 128 - n {
        element(v(i - (128 - n)))
    } else {
        0
    } by {
        if i >= 128 - n && cols.len() > 1 && i - (128 - n) < height(cols, 1) {
            assert(column_words(cols, 1)[i - (128 - n)] == cell(cols, 1, i - (128 - n)));
        }
    }
    suffix_sum(c.vals, c.selectors, 128 - n, v);
    sum_over_same(n, |i: int| v(i) as int, |i: int| value_cell(cols, 1, i) as int);
    assert(c.vals =~= Seq::new(128, |i: int| element(value_cell(cols, 1, i - (128 - n)))));
}

/// The number of groups is the number of different keys among the first 128 cells
/// of the sorted column.
pub proof fn groups_are_different_keys(h: FieldHash, w: WitnessTrace)
    requires
        witness_accepted(h, TAG_GROUP_BY, w),
        forall|i: int|
            0 <= i < height(w.columns@, 0) ==> #[trigger] cell(w.columns@, 0, i)
                < 0xFFFF_FFFF_0000_0001,
    ensures
        ({
            let n = taken(height(w.columns@, 0));
            let keys = Set::new(
                |k: u64| exists|i: int| 0 <= i < n && #[trigger] cell(w.columns@, 0, i) == k,
            );
            keys.finite() && witness_statement(h, TAG_GROUP_BY, w)[4] == keys.len()
        }),
{
    let cols = w.columns@;
    let n = taken(height(cols, 0));
    let outs = column_words(cols, 0);
    column_seen(cols, 0);
    assert forall|i: int| 0 <= i < outs.len() implies #[trigger] outs[i] < MODULUS by {
        assert(cell(cols, 0, i) < 0xFFFF_FFFF_0000_0001);
    }
    group_prover_counts(
        h,
        group_in_keys(w),
        outs,
        group_values(w),
        root_lo(w.snapshot_root@),
        root_lo(w.query_hash@),
    );
    let keys = Set::new(|k: u64| exists|i: int| 0 <= i < n && #[trigger] cell(cols, 0, i) == k);
    let t = outs.take(n);
    assert forall|k: u64| keys.contains(k) <==> t.to_set().contains(k) by {
        if keys.contains(k) {
            let i = choose|i: int| 0 <= i < n && #[trigger] cell(cols, 0, i) == k;
            assert(t[i] == k);
        }
        if t.contains(k) {
            let i = choose|i: int| 0 <= i < t.len() && t[i] == k;
            assert(cell(cols, 0, i) == k);
        }
    }
    assert(keys =~= t.to_set());
    t.lemma_cardinality_of_set();
}

/// The cells of a column are canonical, or smaller still.
pub open spec fn cells_below(columns: Seq<ColumnTrace>, k: int, bound: int) -> bool {
    forall|i: int| 0 <= i < height(columns, k) ==> #[trigger] cell(columns, k, i) < bound
}

/// The first `n` rows of three columns.
pub open spec fn row_cells(columns: Seq<ColumnTrace>, n: int) -> Seq<(u64, u64, u64)> {
    Seq::new(n as nat, |i: int| (cell(columns, 0, i), cell(columns, 1, i), cell(columns, 2, i)))
}

/// The first `n` cells of a column.
pub open spec fn column_cells(columns: Seq<ColumnTrace>, k: int, n: int) -> Seq<u64> {
    Seq::new(n as nat, |i: int| cell(columns, k, i))
}

/// The first `n` cells of the first column never fall, or never rise.
pub open spec fn cells_in_order(columns: Seq<ColumnTrace>, n: int, descending: bool) -> bool {
    forall|i: int, j: int|
        0 <= i <= j < n ==> if descending {
            #[trigger] cell(columns, 0, i) >= #[trigger] cell(columns, 0, j)
        } else {
            cell(columns, 0, i) <= cell(columns, 0, j)
        }
}

/// Three canonical columns of at most `n` cells, the first one full.
pub open spec fn three_columns(columns: Seq<ColumnTrace>, n: int) -> bool {
    &&& height(columns, 0) == n
    &&& height(columns, 1) <= n
    &&& height(columns, 2) <= n
    &&& cells_below(columns, 0, 0xFFFF_FFFF_0000_0001)
    &&& cells_below(columns, 1, 0xFFFF_FFFF_0000_0001)
    &&& cells_below(columns, 2, 0xFFFF_FFFF_0000_0001)
}

proof fn words_below(columns: Seq<ColumnTrace>, k: int, bound: int)
    requires
        0 <= k,
        cells_below(columns, k, bound),
    ensures
        forall|i: int|
            0 <= i < column_words(columns, k).len() ==> #[trigger] column_words(columns, k)[i] < bound,
{
    column_seen(columns, k);
    assert forall|i: int| 0 <= i < column_words(columns, k).len() implies #[trigger] column_words(
        columns,
        k,
    )[i] < bound by {
        assert(cell(columns, k, i) < bound);
    }
}

/// Which sorts are proved. Of at most 128 canonical rows with sorted values below
/// 2^48, exactly those where the root holds the hash of the unsorted values, the
/// sorted values are in the order of the circuit, and the sorted rows are the
/// unsorted ones in another order, each with its fingerprint, or collide with
/// them.
pub proof fn sort_accepted_cells(h: FieldHash, w: WitnessTrace, descending: bool, n: int)
    requires
        0 <= n <= 128,
        three_columns(w.input_columns@, n),
        three_columns(w.columns@, n),
        cells_below(w.columns@, 0, 0x1_0000_0000_0000),
    ensures
        ({
            let tag = if descending {
                TAG_DESC_SORT
            } else {
                TAG_SORT
            };
            witness_accepted(h, tag, w) <==> {
                &&& leading_element(w.snapshot_root@) == h(hashed_column(w.input_columns@, 0))[0]
                &&& cells_in_order(w.columns@, n, descending)
                &&& row_cells(w.input_columns@, n).to_multiset() == row_cells(
                    w.columns@,
                    n,
                ).to_multiset() || witness_collides(h, tag, w)
            }
        }),
{
    let ins = w.input_columns@;
    let outs = w.columns@;
    let rows = sort_values(w);
    let snap = residue(root_lo(w.snapshot_root@));
    let qhash = residue(root_lo(w.query_hash@));
    column_seen(ins, 0);
    column_seen(ins, 1);
    column_seen(ins, 2);
    column_seen(outs, 0);
    column_seen(outs, 1);
    column_seen(outs, 2);
    words_below(ins, 0, MODULUS as int);
    words_below(ins, 1, MODULUS as int);
    words_below(ins, 2, MODULUS as int);
    words_below(outs, 0, MODULUS as int);
    words_below(outs, 1, MODULUS as int);
    words_below(outs, 2, MODULUS as int);
    words_below(outs, 0, 0x1_0000_0000_0000);
    root_word(w.snapshot_root@);
    if n == 0 {
        assert(column_words(outs, 0).reverse() =~= column_words(ins, 0));
    }
    lemma_mod_twice(root_lo(w.snapshot_root@) as int, MODULUS as int);
    lemma_mod_twice(root_lo(w.query_hash@) as int, MODULUS as int);
    assert(residue(snap) == snap);
    assert(residue(qhash) == qhash);
    assert(rows_given(rows));
    assert(small_words(rows.out_vals));
    sort_accepted_exactly(h, rows, snap, qhash, descending);
    assert(snap_lo(h, 128, rows.in_vals) == h(hashed_column(ins, 0))[0]);
    assert(row_triples(rows.in_vals, rows.in_lo, rows.in_hi) =~= row_cells(ins, n));
    assert(row_triples(rows.out_vals, rows.out_lo, rows.out_hi) =~= row_cells(outs, n));
    if ordered(rows.out_vals, descending) {
        assert forall|i: int, j: int| 0 <= i <= j < n implies if descending {
            #[trigger] cell(outs, 0, i) >= #[trigger] cell(outs, 0, j)
        } else {
            cell(outs, 0, i) <= cell(outs, 0, j)
        } by {
            assert(in_order(rows.out_vals[i], rows.out_vals[j], descending));
        }
    }
    if cells_in_order(outs, n, descending) {
        assert forall|i: int, j: int| 0 <= i <= j < rows.out_vals.len() implies in_order(
            #[trigger] rows.out_vals[i],
            #[trigger] rows.out_vals[j],
            descending,
        ) by {
            assert(rows.out_vals[i] == cell(outs, 0, i));
            assert(rows.out_vals[j] == cell(outs, 0, j));
        }
    }
}

/// Which groupings are proved. Of at most 128 canonical keys with sorted keys below
/// 2^48, exactly those where the root holds the hash of the unsorted keys, the
/// sorted keys never fall, and they are the unsorted ones in another order, or
/// collide with them.
pub proof fn group_accepted_cells(h: FieldHash, w: WitnessTrace, n: int)
    requires
        0 <= n <= 128,
        w.input_columns@.len() > 0,
        height(w.input_columns@, 0) == n,
        height(w.columns@, 0) == n,
        cells_below(w.input_columns@, 0, 0xFFFF_FFFF_0000_0001),
        cells_below(w.columns@, 0, 0x1_0000_0000_0000),
    ensures
        witness_accepted(h, TAG_GROUP_BY, w) <==> {
            &&& leading_element(w.snapshot_root@) == h(hashed_column(w.input_columns@, 0))[0]
            &&& cells_in_order(w.columns@, n, false)
            &&& column_cells(w.input_columns@, 0, n).to_multiset() == column_cells(
                w.columns@,
                0,
                n,
            ).to_multiset() || witness_collides(h, TAG_GROUP_BY, w)
        },
{
    let ins = w.input_columns@;
    let outs = w.columns@;
    let a = group_in_keys(w);
    let b = column_words(outs, 0);
    let snap = residue(root_lo(w.snapshot_root@));
    let qhash = residue(root_lo(w.query_hash@));
    column_seen(ins, 0);
    column_seen(outs, 0);
    words_below(ins, 0, MODULUS as int);
    words_below(outs, 0, 0x1_0000_0000_0000);
    root_word(w.snapshot_root@);
    lemma_mod_twice(root_lo(w.snapshot_root@) as int, MODULUS as int);
    lemma_mod_twice(root_lo(w.query_hash@) as int, MODULUS as int);
    assert(residue(snap) == snap);
    assert(residue(qhash) == qhash);
    assert(keys_given(a, b));
    assert(small_words(b));
    group_accepted_exactly(h, a, b, group_values(w), snap, qhash);
    assert(snap_lo(h, 128, a) == h(hashed_column(ins, 0))[0]);
    assert(a =~= column_cells(ins, 0, n));
    assert(b =~= column_cells(outs, 0, n));
    let up = |v: u64| v as int;
    let down = |v: int| v as u64;
    assert(a.map_values(up) =~= elements(a));
    assert(b.map_values(up) =~= elements(b));
    assert(elements(a).map_values(down) =~= a);
    assert(elements(b).map_values(down) =~= b);
    if a.to_multiset() == b.to_multiset() {
        mapped_permutation(a, b, up);
    }
    if elements(a).to_multiset() == elements(b).to_multiset() {
        mapped_permutation(elements(a), elements(b), down);
    }
    if ordered(b, false) {
        assert forall|i: int, j: int| 0 <= i <= j < n implies if false {
            #[trigger] cell(outs, 0, i) >= #[trigger] cell(outs, 0, j)
        } else {
            cell(outs, 0, i) <= cell(outs, 0, j)
        } by {
            assert(in_order(b[i], b[j], false));
        }
    }
    if cells_in_order(outs, n, false) {
        assert forall|i: int, j: int| 0 <= i <= j < b.len() implies in_order(
            #[trigger] b[i],
            #[trigger] b[j],
            false,
        ) by {
            assert(b[i] == cell(outs, 0, i));
            assert(b[j] == cell(outs, 0, j));
        }
    }
}

/// The circuit for the tag sees the same of both witnesses, but for how they name
/// it.
pub open spec fn seen_alike(h: FieldHash, tag: u8, w: WitnessTrace, v: WitnessTrace) -> bool {
    &&& witness_accepted(h, tag, w) == witness_accepted(h, tag, v)
    &&& witness_statement(h, tag, w) == witness_statement(h, tag, v)
}

/// A join witness that selects nothing stands for one that selects every row.
pub proof fn joins_select_all_by_default(h: FieldHash, w: WitnessTrace, v: WitnessTrace)
    requires
        w.selected@.len() == 0,
        v.selected@ == Seq::new(height(w.columns@, 0) as nat, |i: int| true),
        v.columns == w.columns,
        v.snapshot_root == w.snapshot_root,
        v.query_hash == w.query_hash,
    ensures
        seen_alike(h, TAG_JOIN, w, v),
{
    column_seen(w.columns@, 0);
    assert(join_selected(w) =~= join_selected(v));
}

/// A sort or grouping witness without unsorted rows stands for one whose unsorted
/// rows are the sorted ones, last to first.
pub proof fn unsorted_rows_by_default(h: FieldHash, tag: u8, w: WitnessTrace, v: WitnessTrace)
    requires
        tag == TAG_SORT || tag == TAG_DESC_SORT || tag == TAG_GROUP_BY,
        w.input_columns@.len() == 0,
        v.input_columns@.len() == 1,
        height(v.input_columns@, 0) == height(w.columns@, 0),
        forall|i: int|
            0 <= i < height(w.columns@, 0) ==> #[trigger] cell(v.input_columns@, 0, i) == cell(
                w.columns@,
                0,
                height(w.columns@, 0) - 1 - i,
            ),
        v.columns == w.columns,
        v.snapshot_root == w.snapshot_root,
        v.query_hash == w.query_hash,
    ensures
        seen_alike(h, tag, w, v),
{
    column_seen(w.columns@, 0);
    column_seen(v.input_columns@, 0);
    let outs = column_words(w.columns@, 0);
    assert forall|i: int| 0 <= i < outs.len() implies #[trigger] column_words(
        v.input_columns@,
        0,
    )[i] == outs.reverse()[i] by {
        assert(column_words(v.input_columns@, 0)[i] == cell(v.input_columns@, 0, i));
        assert(outs[outs.len() - 1 - i] == cell(w.columns@, 0, outs.len() - 1 - i));
    }
    assert(column_words(v.input_columns@, 0) =~= outs.reverse());
    assert(column_words(v.input_columns@, 1) =~= column_words(w.input_columns@, 1));
    assert(column_words(v.input_columns@, 2) =~= column_words(w.input_columns@, 2));
    if outs.len() == 0 {
        assert(outs.reverse() =~= outs);
    }
}

/// A circuit sees of a witness its columns, its selection, its predicate, its
/// snapshot root and its query hash, and nothing else.
pub proof fn nothing_else_is_seen(h: FieldHash, tag: u8, w: WitnessTrace, v: WitnessTrace)
    requires
        v.columns == w.columns,
        v.input_columns == w.input_columns,
        v.selected == w.selected,
        v.filter_op == w.filter_op,
        v.filter_val == w.filter_val,
        v.snapshot_root == w.snapshot_root,
        v.query_hash == w.query_hash,
    ensures
        seen_alike(h, tag, w, v),
{
}

/// Words after zeros, 128 in all.
pub open spec fn after_padding(s: Seq<u64>) -> Seq<u64> {
    Seq::new(
        128,
        |i: int|
            if i >= 128 - s.len() {
                s[i - (128 - s.len())]
            } else {
                0
            },
    )
}

/// The sum of the values of the rows up to `i` that have the key of row `i`.
pub open spec fn sum_of_key(keys: Seq<u64>, vals: Seq<u64>, i: int) -> int {
    sum_over(
        i + 1,
        |j: int|
            if keys[j] == keys[i] {
                vals[j] as int
            } else {
                0
            },
    )
}

/// What is committed to of groups: the keys, the sum of each key so far, and where
/// the key changes.
pub open spec fn group_table(keys: Seq<u64>, vals: Seq<u64>) -> Seq<u64> {
    keys + Seq::new(
        128,
        |i: int| (sum_of_key(keys, vals, i) % 0xFFFF_FFFF_0000_0001) as u64,
    ) + Seq::new(
        127,
        |i: int|
            if keys[i] != keys[i + 1] {
                1u64
            } else {
                0u64
            },
    )
}

/// A running sum is the sum of the key so far, where keys never fall.
proof fn running_sum_of_key(keys: Seq<u64>, vals: Seq<u64>, i: int)
    requires
        keys.len() == 128,
        0 <= i < 128,
        forall|a: int, b: int| 0 <= a <= b < 128 ==> #[trigger] keys[a] <= #[trigger] keys[b],
    ensures
        running_sum(vals, boundary_flags(keys), i) == sum_of_key(keys, vals, i) % (MODULUS as int),
    decreases i,
{
    let p = MODULUS as int;
    let f = |j: int|
        if keys[j] == keys[i] {
            vals[j] as int
        } else {
            0
        };
    assert(sum_over(i + 1, f) == sum_over(i, f) + f(i));
    if i == 0 {
        assert(sum_over(0, f) == 0);
    } else {
        running_sum_of_key(keys, vals, i - 1);
        assert(keys[i - 1] <= keys[i]);
        assert(boundary_flags(keys)[i - 1] == if keys[i - 1] != keys[i] {
            1u64
        } else {
            0u64
        });
        if keys[i - 1] != keys[i] {
            assert forall|j: int| 0 <= j < i implies #[trigger] f(j) == 0 by {
                assert(keys[j] <= keys[i - 1]);
            }
            sum_over_zeros(0, i, f);
        } else {
            let g = |j: int|
                if keys[j] == keys[i - 1] {
                    vals[j] as int
                } else {
                    0
                };
            sum_over_same(i, f, g);
            reduced_sum(sum_over(i, g), vals[i] as int);
        }
    }
}

/// The commitment to groups is the hash of the group table: of at most 128 keys
/// that never fall and are canonical, and their values.
pub proof fn group_commitment_is_of_the_table(h: FieldHash, keys: Seq<u64>, vals: Seq<u64>)
    requires
        keys.len() <= 128,
        vals.len() == keys.len(),
        forall|i: int| 0 <= i < keys.len() ==> #[trigger] keys[i] < 0xFFFF_FFFF_0000_0001,
        forall|i: int, j: int|
            0 <= i <= j < keys.len() ==> #[trigger] keys[i] <= #[trigger] keys[j],
    ensures
        group_output_lo(h, keys, vals) == h(group_table(after_padding(keys), after_padding(vals)))[0],
{
    let pad = 128 - keys.len();
    let k = after_padding(keys);
    let v = after_padding(vals);
    assert(back(keys, pad) =~= k);
    assert(back(vals, pad) =~= v);
    assert forall|i: int| 0 <= i < 128 implies #[trigger] k[i] < MODULUS by {
        if i >= pad {
            assert(keys[i - pad] < 0xFFFF_FFFF_0000_0001);
        }
    }
    assert(residues(k) =~= k);
    assert forall|a: int, b: int| 0 <= a <= b < 128 implies #[trigger] k[a] <= #[trigger] k[b] by {
        if a >= pad {
            assert(keys[a - pad] <= keys[b - pad]);
        }
    }
    let flags = boundary_flags(k);
    assert forall|i: int| 0 <= i < 128 implies #[trigger] running_sums(v, flags)[i] == (sum_of_key(
        k,
        v,
        i,
    ) % 0xFFFF_FFFF_0000_0001) as u64 by {
        running_sum_of_key(k, v, i);
    }
    assert forall|i: int| 0 <= i < 127 implies #[trigger] flags[i] == if k[i] != k[i + 1] {
        1u64
    } else {
        0u64
    } by {
        assert(k[i] <= k[i + 1]);
    }
    assert(residues(k) + running_sums(v, flags) + flags =~= group_table(k, v));
}

/// A grouping proof exposes the commitment to the groups of its sorted keys and
/// their values.
pub proof fn group_proof_commits_to_the_table(h: FieldHash, w: WitnessTrace, n: int)
    requires
        0 < n <= 128,
        height(w.input_columns@, 0) == n,
        height(w.columns@, 0) == n,
        height(w.columns@, 1) == n,
        cells_below(w.columns@, 0, 0xFFFF_FFFF_0000_0001),
        cells_in_order(w.columns@, n, false),
    ensures
        witness_statement(h, TAG_GROUP_BY, w)[5] == h(
            group_table(
                after_padding(column_cells(w.columns@, 0, n)),
                after_padding(column_cells(w.columns@, 1, n)),
            ),
        )[0],
{
    let cols = w.columns@;
    let keys = column_words(cols, 0);
    column_seen(cols, 0);
    column_seen(cols, 1);
    column_seen(w.input_columns@, 0);
    words_below(cols, 0, MODULUS as int);
    assert(keys =~= column_cells(cols, 0, n));
    assert(group_values(w) =~= column_cells(cols, 1, n));
    assert forall|i: int, j: int| 0 <= i <= j < keys.len() implies #[trigger] keys[i]
        <= #[trigger] keys[j] by {
        assert(cell(cols, 0, i) <= cell(cols, 0, j));
    }
    group_commitment_is_of_the_table(h, keys, group_values(w));
    group_output_agrees(
        h,
        group_in_keys(w),
        keys,
        group_values(w),
        root_lo(w.snapshot_root@),
        root_lo(w.query_hash@),
    );
}

/// No key after row `j`, up to row `i`, is above the one before it.
pub open spec fn same_run(keys: Seq<u64>, j: int, i: int) -> bool {
    forall|m: int| j < m <= i ==> #[trigger] keys[m] <= keys[m - 1]
}

/// The sum of the values since the key last rose.
pub open spec fn sum_of_run(keys: Seq<u64>, vals: Seq<u64>, i: int) -> int {
    sum_over(
        i + 1,
        |j: int|
            if same_run(keys, j, i) {
                vals[j] as int
            } else {
                0
            },
    )
}

/// What is committed to of any keys and values: the keys, the sum since the key
/// last rose, and where it rises.
pub open spec fn run_table(keys: Seq<u64>, vals: Seq<u64>) -> Seq<u64> {
    Seq::new(128, |i: int| element(keys[i])) + Seq::new(
        128,
        |i: int| (sum_of_run(keys, vals, i) % 0xFFFF_FFFF_0000_0001) as u64,
    ) + Seq::new(
        127,
        |i: int|
            if keys[i] < keys[i + 1] {
                1u64
            } else {
                0u64
            },
    )
}

/// At most 128 words behind as many zeros as there are fewer than `n`.
pub open spec fn behind_zeros(s: Seq<u64>, n: int) -> Seq<u64> {
    Seq::new(
        128,
        |i: int|
            if 128 - taken(n) <= i < 128 - taken(n) + s.len() {
                s[i - (128 - taken(n))]
            } else {
                0
            },
    )
}

proof fn running_sum_of_run(keys: Seq<u64>, vals: Seq<u64>, i: int)
    requires
        keys.len() == 128,
        0 <= i < 128,
    ensures
        running_sum(vals, boundary_flags(keys), i) == sum_of_run(keys, vals, i) % (MODULUS as int),
    decreases i,
{
    let f = |j: int|
        if same_run(keys, j, i) {
            vals[j] as int
        } else {
            0
        };
    assert(same_run(keys, i, i));
    assert(sum_over(i + 1, f) == sum_over(i, f) + f(i));
    if i == 0 {
        assert(sum_over(0, f) == 0);
    } else {
        running_sum_of_run(keys, vals, i - 1);
        assert(boundary_flags(keys)[i - 1] == if keys[i - 1] < keys[i] {
            1u64
        } else {
            0u64
        });
        if keys[i - 1] < keys[i] {
            assert forall|j: int| 0 <= j < i implies #[trigger] f(j) == 0 by {
                assert(!same_run(keys, j, i)) by {
                    assert(keys[i] > keys[i - 1]);
                }
            }
            sum_over_zeros(0, i, f);
        } else {
            let g = |j: int|
                if same_run(keys, j, i - 1) {
                    vals[j] as int
                } else {
                    0
                };
            assert forall|j: int| 0 <= j < i implies #[trigger] f(j) == g(j) by {
                if same_run(keys, j, i - 1) {
                    assert forall|m: int| j < m <= i implies #[trigger] keys[m] <= keys[m - 1] by {}
                }
            }
            sum_over_same(i, f, g);
            reduced_sum(sum_over(i, g), vals[i] as int);
        }
    }
}

/// The commitment to groups is the hash of the run table, whatever the keys and
/// the values are.
pub proof fn group_commitment_is_of_the_runs(h: FieldHash, keys: Seq<u64>, vals: Seq<u64>)
    ensures
        group_output_lo(h, keys, vals) == h(
            run_table(
                behind_zeros(keys, keys.len() as int),
                behind_zeros(vals, keys.len() as int),
            ),
        )[0],
{
    let n = keys.len() as int;
    let pad = 128 - taken(n);
    let k = behind_zeros(keys, n);
    let v = behind_zeros(vals, n);
    assert(back(keys, pad) =~= k);
    assert(back(vals, pad) =~= v);
    let flags = boundary_flags(k);
    assert forall|i: int| 0 <= i < 128 implies #[trigger] running_sums(v, flags)[i] == (sum_of_run(
        k,
        v,
        i,
    ) % 0xFFFF_FFFF_0000_0001) as u64 by {
        running_sum_of_run(k, v, i);
    }
    assert(residues(k) + running_sums(v, flags) + flags =~= run_table(k, v));
}

/// A grouping proof exposes the commitment to the runs of its sorted keys and
/// their values.
pub proof fn group_proof_commits_to_the_runs(h: FieldHash, w: WitnessTrace)
    requires
        w.input_columns@.len() > 0,
        height(w.input_columns@, 0) == height(w.columns@, 0),
    ensures
        ({
            let cols = w.columns@;
            let n = taken(height(cols, 0));
            witness_statement(h, TAG_GROUP_BY, w)[5] == h(
                run_table(
                    Seq::new(128, |i: int| cell(cols, 0, i - (128 - n))),
                    Seq::new(128, |i: int| value_cell(cols, 1, i - (128 - n))),
                ),
            )[0]
        }),
{
    let cols = w.columns@;
    let n = taken(height(cols, 0));
    let keys = column_words(cols, 0);
    column_seen(cols, 0);
    column_seen(cols, 1);
    column_seen(w.input_columns@, 0);
    let m = keys.len() as int;
    assert(behind_zeros(keys, m) =~= Seq::new(128, |i: int| cell(cols, 0, i - (128 - n))));
    assert(behind_zeros(group_values(w), m) =~= Seq::new(
        128,
        |i: int| value_cell(cols, 1, i - (128 - n)),
    ));
    group_commitment_is_of_the_runs(h, keys, group_values(w));
    group_output_agrees(
        h,
        group_in_keys(w),
        keys,
        group_values(w),
        root_lo(w.snapshot_root@),
        root_lo(w.query_hash@),
    );
}

/// The values of neighbours are within 2^48 of each other, and in order.
pub open spec fn close(a: u64, b: u64, descending: bool) -> bool {
    if descending {
        b <= a && a - b < 0x1_0000_0000_0000
    } else {
        a <= b && b - a < 0x1_0000_0000_0000
    }
}

/// Wide steps are not proved: of at most 128 canonical values, a sort is accepted
/// only if neighbours are in order and within 2^48 of each other. With fewer than
/// 128 values, the smallest is below 2^48.
pub proof fn sorted_values_are_close(h: FieldHash, w: WitnessTrace, descending: bool, n: int, i: int)
    requires
        0 <= n <= 128,
        height(w.columns@, 0) == n,
        n == 0 || height(w.input_columns@, 0) > 0,
        cells_below(w.columns@, 0, 0xFFFF_FFFF_0000_0001),
        witness_accepted(
            h,
            if descending {
                TAG_DESC_SORT
            } else {
                TAG_SORT
            },
            w,
        ),
    ensures
        0 <= i < n - 1 ==> close(cell(w.columns@, 0, i), cell(w.columns@, 0, i + 1), descending),
        0 < n < 128 ==> if descending {
            cell(w.columns@, 0, n - 1) < 0x1_0000_0000_0000
        } else {
            cell(w.columns@, 0, 0) < 0x1_0000_0000_0000
        },
{
    let cols = w.columns@;
    let rows = sort_values(w);
    let c = sort_inputs(rows, descending);
    let pad = sort_pad(rows, descending);
    let outs = back(rows.out_vals, pad);
    column_seen(cols, 0);
    column_seen(w.input_columns@, 0);
    words_below(cols, 0, MODULUS as int);
    assert(rows.out_vals == column_words(cols, 0));
    if n > 0 {
        assert(pad == if descending {
            0int
        } else {
            128 - n
        });
        assert forall|k: int| 0 <= k < 128 implies #[trigger] c.outs[k] == outs[k] && outs[k]
            < MODULUS by {
            if pad <= k < pad + n {
                assert(outs[k] == rows.out_vals[k - pad]);
            }
        }
        if 0 <= i < n - 1 {
            close_step(c, outs, descending, i + pad);
            assert(outs[i + pad] == cell(cols, 0, i));
            assert(outs[i + pad + 1] == cell(cols, 0, i + 1));
        }
        if n < 128 {
            if descending {
                close_step(c, outs, descending, n - 1);
                assert(outs[n - 1] == cell(cols, 0, n - 1));
                assert(outs[n] == 0);
            } else {
                close_step(c, outs, descending, pad - 1);
                assert(outs[pad] == cell(cols, 0, 0));
                assert(outs[pad - 1] == 0);
            }
        }
    }
}

/// A step that the relation accepts is close.
proof fn close_step(c: SortColumns, outs: Seq<u64>, descending: bool, k: int)
    requires
        0 <= k < 127,
        sort_step(c, descending, k),
        c.diffs == residues(sort_diffs(outs, descending)),
        c.outs[k] == outs[k],
        c.outs[k + 1] == outs[k + 1],
        outs[k] < MODULUS,
        outs[k + 1] < MODULUS,
    ensures
        close(outs[k], outs[k + 1], descending),
{
    let d = sort_diffs(outs, descending)[k];
    assert(c.diffs[k] == d);
}

/// Wide steps are not proved of groups either: of at most 128 canonical keys, a
/// grouping is accepted only if neighbours ascend and are within 2^48 of each
/// other. With fewer than 128 keys, the smallest is below 2^48.
pub proof fn grouped_keys_are_close(h: FieldHash, w: WitnessTrace, n: int, i: int)
    requires
        0 <= n <= 128,
        height(w.columns@, 0) == n,
        w.input_columns@.len() > 0,
        cells_below(w.columns@, 0, 0xFFFF_FFFF_0000_0001),
        witness_accepted(h, TAG_GROUP_BY, w),
    ensures
        0 <= i < n - 1 ==> close(cell(w.columns@, 0, i), cell(w.columns@, 0, i + 1), false),
        0 < n < 128 ==> cell(w.columns@, 0, 0) < 0x1_0000_0000_0000,
{
    let cols = w.columns@;
    let keys = column_words(cols, 0);
    let pad = 128 - n;
    let outs = back(keys, pad);
    let c = group_inputs(group_in_keys(w), keys, group_values(w));
    column_seen(cols, 0);
    column_seen(w.input_columns@, 0);
    words_below(cols, 0, MODULUS as int);
    assert(c.outs == residues(outs));
    assert(c.diffs == residues(sort_diffs(outs, false)));
    assert forall|k: int| 0 <= k < 128 implies #[trigger] c.outs[k] == outs[k] && outs[k]
        < MODULUS by {
        if pad <= k < pad + n {
            assert(outs[k] == keys[k - pad]);
        }
    }
    if 0 <= i < n - 1 {
        assert(group_step(c, i + pad));
        assert(c.diffs[i + pad] == sort_diffs(outs, false)[i + pad]);
        assert(outs[i + pad] == cell(cols, 0, i));
        assert(outs[i + pad + 1] == cell(cols, 0, i + 1));
    }
    if 0 < n < 128 {
        assert(group_step(c, pad - 1));
        assert(c.diffs[pad - 1] == sort_diffs(outs, false)[pad - 1]);
        assert(outs[pad] == cell(cols, 0, 0));
        assert(outs[pad - 1] == 0);
    }
}

/// The first `n` cells of the first column are close, and so is the smallest to
/// zero where there are fewer than 128.
pub open spec fn all_close(columns: Seq<ColumnTrace>, n: int, descending: bool) -> bool {
    &&& forall|i: int|
        0 <= i < n - 1 ==> close(#[trigger] cell(columns, 0, i), cell(columns, 0, i + 1), descending)
    &&& 0 < n < 128 ==> if descending {
        cell(columns, 0, n - 1) < 0x1_0000_0000_0000
    } else {
        cell(columns, 0, 0) < 0x1_0000_0000_0000
    }
}

/// Close steps are proved: of at most 128 canonical rows whose sorted values are
/// close, a sort is accepted where the root holds the hash of the unsorted values
/// and the sorted rows are the unsorted ones in another order.
pub proof fn close_sorts_are_proved(h: FieldHash, w: WitnessTrace, descending: bool, n: int)
    requires
        0 <= n <= 128,
        three_columns(w.input_columns@, n),
        three_columns(w.columns@, n),
        all_close(w.columns@, n, descending),
        leading_element(w.snapshot_root@) == h(hashed_column(w.input_columns@, 0))[0],
        row_cells(w.input_columns@, n).to_multiset() == row_cells(w.columns@, n).to_multiset(),
    ensures
        witness_accepted(
            h,
            if descending {
                TAG_DESC_SORT
            } else {
                TAG_SORT
            },
            w,
        ),
{
    let ins = w.input_columns@;
    let outs = w.columns@;
    let rows = sort_values(w);
    let snap = residue(root_lo(w.snapshot_root@));
    column_seen(ins, 0);
    column_seen(ins, 1);
    column_seen(ins, 2);
    column_seen(outs, 0);
    column_seen(outs, 1);
    column_seen(outs, 2);
    words_below(ins, 0, MODULUS as int);
    words_below(ins, 1, MODULUS as int);
    words_below(ins, 2, MODULUS as int);
    words_below(outs, 0, MODULUS as int);
    words_below(outs, 1, MODULUS as int);
    words_below(outs, 2, MODULUS as int);
    root_word(w.snapshot_root@);
    lemma_mod_twice(root_lo(w.snapshot_root@) as int, MODULUS as int);
    assert(residue(snap) == snap);
    if n == 0 {
        assert(column_words(outs, 0).reverse() =~= column_words(ins, 0));
    }
    assert(rows_given(rows));
    assert(row_triples(rows.in_vals, rows.in_lo, rows.in_hi) =~= row_cells(ins, n));
    assert(row_triples(rows.out_vals, rows.out_lo, rows.out_hi) =~= row_cells(outs, n));
    assert forall|i: int| 0 <= i < rows.out_vals.len() - 1 implies #[trigger] step_within(
        rows.out_vals,
        descending,
        i,
    ) by {
        assert(close(cell(outs, 0, i), cell(outs, 0, i + 1), descending));
        assert(rows.out_vals[i] == cell(outs, 0, i));
        assert(rows.out_vals[i + 1] == cell(outs, 0, i + 1));
    }
    assert(sortable(rows, descending));
    assert(snap_lo(h, 128, rows.in_vals) == h(hashed_column(ins, 0))[0]);
    sort_complete(h, rows, snap, root_lo(w.query_hash@), descending);
}

/// Close keys are proved: of at most 128 canonical keys whose sorted ones are
/// close, a grouping is accepted where the root holds the hash of the unsorted
/// keys and the sorted keys are the unsorted ones in another order.
pub proof fn close_groups_are_proved(h: FieldHash, w: WitnessTrace, n: int)
    requires
        0 <= n <= 128,
        w.input_columns@.len() > 0,
        height(w.input_columns@, 0) == n,
        height(w.columns@, 0) == n,
        cells_below(w.input_columns@, 0, 0xFFFF_FFFF_0000_0001),
        cells_below(w.columns@, 0, 0xFFFF_FFFF_0000_0001),
        all_close(w.columns@, n, false),
        leading_element(w.snapshot_root@) == h(hashed_column(w.input_columns@, 0))[0],
        column_cells(w.input_columns@, 0, n).to_multiset() == column_cells(
            w.columns@,
            0,
            n,
        ).to_multiset(),
    ensures
        witness_accepted(h, TAG_GROUP_BY, w),
{
    let ins = w.input_columns@;
    let outs = w.columns@;
    let a = group_in_keys(w);
    let b = column_words(outs, 0);
    let snap = residue(root_lo(w.snapshot_root@));
    column_seen(ins, 0);
    column_seen(outs, 0);
    words_below(ins, 0, MODULUS as int);
    words_below(outs, 0, MODULUS as int);
    root_word(w.snapshot_root@);
    lemma_mod_twice(root_lo(w.snapshot_root@) as int, MODULUS as int);
    assert(residue(snap) == snap);
    assert(a =~= column_cells(ins, 0, n));
    assert(b =~= column_cells(outs, 0, n));
    let up = |v: u64| v as int;
    assert(a.map_values(up) =~= elements(a));
    assert(b.map_values(up) =~= elements(b));
    mapped_permutation(a, b, up);
    assert forall|i: int| 0 <= i < b.len() - 1 implies #[trigger] step_within(b, false, i) by {
        assert(close(cell(outs, 0, i), cell(outs, 0, i + 1), false));
        assert(b[i] == cell(outs, 0, i));
        assert(b[i + 1] == cell(outs, 0, i + 1));
    }
    assert(groupable(a, b));
    assert(snap_lo(h, 128, a) == h(hashed_column(ins, 0))[0]);
    group_complete(h, a, b, group_values(w), snap, root_lo(w.query_hash@));
}

/// A sort witness whose column of unsorted values is empty stands for one where
/// they are the sorted ones, last to first, with the same fingerprints.
pub proof fn unsorted_values_by_default(
    h: FieldHash,
    w: WitnessTrace,
    v: WitnessTrace,
    descending: bool,
)
    requires
        height(w.input_columns@, 0) == 0,
        height(v.input_columns@, 0) == height(w.columns@, 0),
        height(v.input_columns@, 1) == height(w.input_columns@, 1),
        height(v.input_columns@, 2) == height(w.input_columns@, 2),
        forall|i: int|
            0 <= i < height(w.columns@, 0) ==> #[trigger] cell(v.input_columns@, 0, i) == cell(
                w.columns@,
                0,
                height(w.columns@, 0) - 1 - i,
            ),
        forall|i: int| #[trigger]
            cell(v.input_columns@, 1, i) == cell(w.input_columns@, 1, i),
        forall|i: int| #[trigger]
            cell(v.input_columns@, 2, i) == cell(w.input_columns@, 2, i),
        v.columns == w.columns,
        v.snapshot_root == w.snapshot_root,
        v.query_hash == w.query_hash,
    ensures
        seen_alike(
            h,
            if descending {
                TAG_DESC_SORT
            } else {
                TAG_SORT
            },
            w,
            v,
        ),
{
    column_seen(w.columns@, 0);
    column_seen(w.input_columns@, 0);
    column_seen(w.input_columns@, 1);
    column_seen(w.input_columns@, 2);
    column_seen(v.input_columns@, 0);
    column_seen(v.input_columns@, 1);
    column_seen(v.input_columns@, 2);
    let outs = column_words(w.columns@, 0);
    assert forall|i: int| 0 <= i < outs.len() implies #[trigger] column_words(
        v.input_columns@,
        0,
    )[i] == outs.reverse()[i] by {
        assert(column_words(v.input_columns@, 0)[i] == cell(v.input_columns@, 0, i));
        assert(outs[outs.len() - 1 - i] == cell(w.columns@, 0, outs.len() - 1 - i));
    }
    assert(column_words(v.input_columns@, 0) =~= outs.reverse());
    assert(column_words(v.input_columns@, 1) =~= column_words(w.input_columns@, 1)) by {
        assert forall|i: int| 0 <= i < height(v.input_columns@, 1) implies column_words(
            v.input_columns@,
            1,
        )[i] == column_words(w.input_columns@, 1)[i] by {
            assert(cell(v.input_columns@, 1, i) == cell(w.input_columns@, 1, i));
        }
    }
    assert(column_words(v.input_columns@, 2) =~= column_words(w.input_columns@, 2)) by {
        assert forall|i: int| 0 <= i < height(v.input_columns@, 2) implies column_words(
            v.input_columns@,
            2,
        )[i] == column_words(w.input_columns@, 2)[i] by {
            assert(cell(v.input_columns@, 2, i) == cell(w.input_columns@, 2, i));
        }
    }
    if outs.len() == 0 {
        assert(outs.reverse() =~= outs);
    }
}

} // verus!
