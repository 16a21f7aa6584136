//! Circuits take the first 128 rows of a witness, and see nothing of the others.

use vstd::prelude::*;

use crate::backend::classify::TAG_AGG;
use crate::backend::classify::TAG_DESC_SORT;
use crate::backend::classify::TAG_GROUP_BY;
use crate::backend::classify::TAG_JOIN;
use crate::backend::classify::TAG_SORT;
use crate::backend::outcomes::cell;
use crate::backend::outcomes::height;
use crate::backend::outcomes::seen_alike;
use crate::backend::outcomes::taken;
use crate::backend::plonky2::agg_values;
use crate::backend::plonky2::column_words;
use crate::backend::plonky2::group_in_keys;
use crate::backend::plonky2::group_values;
use crate::backend::plonky2::join_left_values;
use crate::backend::plonky2::join_right_keys;
use crate::backend::plonky2::join_selected;
use crate::backend::plonky2::sort_values;
use crate::circuit::agg::agg_accepts;
use crate::circuit::agg::agg_flags;
use crate::circuit::agg::agg_selectors;
use crate::circuit::agg::agg_statement;
use crate::circuit::group_by::group_inputs;
use crate::circuit::inputs::back;
use crate::circuit::join::join_inputs;
use crate::circuit::sort::sort_inputs;
use crate::circuit::sort::sort_pad;
use crate::circuit::sort::sort_selectors;
use crate::circuit::system::FieldHash;
use crate::circuit::witness::ColumnTrace;
use crate::circuit::witness::WitnessTrace;
use crate::commitment::poseidon::padded;

verus! {

/// `b` are the columns of `a`, cut to 128 rows.
pub open spec fn cut(a: Seq<ColumnTrace>, b: Seq<ColumnTrace>) -> bool {
    &&& b.len() == a.len()
    &&& forall|k: int| 0 <= k < a.len() ==> #[trigger] height(b, k) == taken(height(a, k))
    &&& forall|k: int, i: int|
        0 <= k < a.len() && 0 <= i < 128 ==> #[trigger] cell(b, k, i) == cell(a, k, i)
}

/// The words of a cut column are the first 128 of the column.
proof fn cut_words(a: Seq<ColumnTrace>, b: Seq<ColumnTrace>, k: int)
    requires
        0 <= k,
        cut(a, b),
    ensures
        column_words(b, k) == column_words(a, k).take(taken(height(a, k))),
        column_words(a, k).len() == height(a, k),
        height(a, k) >= 0,
{
    if k < a.len() {
        let n = taken(height(a, k));
        assert(height(b, k) == n);
        assert forall|i: int| 0 <= i < n implies column_words(b, k)[i] == column_words(a, k)[i] by {
            assert(cell(b, k, i) == cell(a, k, i));
        }
    }
    assert(column_words(b, k) =~= column_words(a, k).take(taken(height(a, k))));
}

/// What is hashed of words is what is hashed of the first 128.
proof fn padded_cut(s: Seq<u64>)
    ensures
        padded(s.take(taken(s.len() as int)), 128) == padded(s, 128),
{
    assert(padded(s.take(taken(s.len() as int)), 128) =~= padded(s, 128));
}

proof fn back_cut(s: Seq<u64>, pad: int)
    requires
        0 <= pad <= 128,
    ensures
        back(s.take(taken(s.len() as int)), pad) == back(s, pad),
{
    assert(back(s.take(taken(s.len() as int)), pad) =~= back(s, pad));
}

/// An aggregation takes the first 128 values of any list.
pub proof fn aggregates_take_128_values(
    h: FieldHash,
    values: Seq<u64>,
    snap: u64,
    qhash: u64,
    op: u64,
    val: u64,
)
    requires
        values.len() > 128,
    ensures
        agg_accepts(h, values, snap, op, val) == agg_accepts(h, values.take(128), snap, op, val),
        agg_statement(h, values, snap, qhash, op, val) == agg_statement(
            h,
            values.take(128),
            snap,
            qhash,
            op,
            val,
        ),
{
    padded_cut(values);
    assert(agg_selectors(values, op, val) =~= agg_selectors(values.take(128), op, val));
    assert(agg_flags(values) =~= agg_flags(values.take(128)));
}

/// Rows past the first 128 are not seen by any circuit: a witness and the witness
/// that is cut to 128 rows are accepted alike and give the same statement. A sort
/// or a grouping must have as many sorted as unsorted rows.
pub proof fn rows_past_128_are_not_seen(h: FieldHash, tag: u8, w: WitnessTrace, v: WitnessTrace)
    requires
        tag <= 4,
        cut(w.columns@, v.columns@),
        cut(w.input_columns@, v.input_columns@),
        v.selected@ == w.selected@.take(taken(w.selected@.len() as int)),
        v.filter_op == w.filter_op,
        v.filter_val == w.filter_val,
        v.snapshot_root == w.snapshot_root,
        v.query_hash == w.query_hash,
        tag == TAG_SORT || tag == TAG_DESC_SORT || tag == TAG_GROUP_BY ==> height(
            w.input_columns@,
            0,
        ) == height(w.columns@, 0) && w.input_columns@.len() > 0,
    ensures
        seen_alike(h, tag, w, v),
{
    cut_words(w.columns@, v.columns@, 0);
    cut_words(w.columns@, v.columns@, 1);
    cut_words(w.columns@, v.columns@, 2);
    cut_words(w.input_columns@, v.input_columns@, 0);
    cut_words(w.input_columns@, v.input_columns@, 1);
    cut_words(w.input_columns@, v.input_columns@, 2);
    if tag == TAG_AGG {
        assert(agg_values(v) =~= agg_values(w));
    } else if tag == TAG_JOIN {
        cut_join(w, v);
    } else if tag == TAG_GROUP_BY {
        cut_group(w, v);
    } else if tag == TAG_SORT {
        cut_sort(w, v, false);
    } else {
        cut_sort(w, v, true);
    }
}

proof fn cut_join(w: WitnessTrace, v: WitnessTrace)
    requires
        v.columns@.len() == w.columns@.len(),
        forall|k: int|
            0 <= k <= 2 ==> #[trigger] column_words(v.columns@, k) == column_words(
                w.columns@,
                k,
            ).take(taken(column_words(w.columns@, k).len() as int)),
        v.selected@ == w.selected@.take(taken(w.selected@.len() as int)),
    ensures
        join_inputs(
            column_words(v.columns@, 0),
            join_right_keys(v),
            join_left_values(v),
            join_selected(v),
        ) == join_inputs(
            column_words(w.columns@, 0),
            join_right_keys(w),
            join_left_values(w),
            join_selected(w),
        ),
{
    let l = column_words(w.columns@, 0);
    let m = column_words(v.columns@, 0);
    let a = join_inputs(m, join_right_keys(v), join_left_values(v), join_selected(v));
    let b = join_inputs(l, join_right_keys(w), join_left_values(w), join_selected(w));
    assert(column_words(v.columns@, 1) == column_words(w.columns@, 1).take(
        taken(column_words(w.columns@, 1).len() as int),
    ));
    assert(column_words(v.columns@, 2) == column_words(w.columns@, 2).take(
        taken(column_words(w.columns@, 2).len() as int),
    ));
    assert(a.left =~= b.left);
    assert(a.right =~= b.right);
    assert(a.vals =~= b.vals);
    assert(a.selectors =~= b.selectors);
    assert(a.flags =~= b.flags);
}

proof fn cut_group(w: WitnessTrace, v: WitnessTrace)
    requires
        v.columns@.len() == w.columns@.len(),
        v.input_columns@.len() == w.input_columns@.len(),
        w.input_columns@.len() > 0,
        column_words(v.columns@, 0) == column_words(w.columns@, 0).take(
            taken(column_words(w.columns@, 0).len() as int),
        ),
        column_words(v.columns@, 1) == column_words(w.columns@, 1).take(
            taken(column_words(w.columns@, 1).len() as int),
        ),
        column_words(v.input_columns@, 0) == column_words(w.input_columns@, 0).take(
            taken(column_words(w.input_columns@, 0).len() as int),
        ),
    ensures
        group_inputs(group_in_keys(v), column_words(v.columns@, 0), group_values(v))
            == group_inputs(group_in_keys(w), column_words(w.columns@, 0), group_values(w)),
{
    let ins = group_in_keys(w);
    let outs = column_words(w.columns@, 0);
    let pad = 128 - taken(ins.len() as int);
    padded_cut(ins);
    back_cut(outs, pad);
    if w.columns@.len() <= 1 {
        assert(group_values(v) =~= group_values(w).take(taken(group_values(w).len() as int)));
    }
    back_cut(group_values(w), pad);
}

proof fn cut_sort(w: WitnessTrace, v: WitnessTrace, descending: bool)
    requires
        column_words(v.columns@, 0) == column_words(w.columns@, 0).take(
            taken(column_words(w.columns@, 0).len() as int),
        ),
        column_words(v.columns@, 1) == column_words(w.columns@, 1).take(
            taken(column_words(w.columns@, 1).len() as int),
        ),
        column_words(v.columns@, 2) == column_words(w.columns@, 2).take(
            taken(column_words(w.columns@, 2).len() as int),
        ),
        column_words(v.input_columns@, 0) == column_words(w.input_columns@, 0).take(
            taken(column_words(w.input_columns@, 0).len() as int),
        ),
        column_words(v.input_columns@, 1) == column_words(w.input_columns@, 1).take(
            taken(column_words(w.input_columns@, 1).len() as int),
        ),
        column_words(v.input_columns@, 2) == column_words(w.input_columns@, 2).take(
            taken(column_words(w.input_columns@, 2).len() as int),
        ),
        column_words(w.columns@, 0).len() == column_words(w.input_columns@, 0).len(),
    ensures
        sort_inputs(sort_values(v), descending) == sort_inputs(sort_values(w), descending),
        sort_values(w).in_vals.len() == sort_values(w).out_vals.len(),
        sort_values(v).in_vals.len() == sort_values(v).out_vals.len(),
{
    let x = sort_values(w);
    let y = sort_values(v);
    if x.out_vals.len() == 0 {
        assert(x.out_vals.reverse() =~= x.out_vals);
        assert(y.out_vals =~= x.out_vals);
    }
    let pad = sort_pad(x, descending);
    assert(sort_pad(y, descending) == pad);
    assert(y.in_vals =~= x.in_vals.take(taken(x.in_vals.len() as int)));
    padded_cut(x.in_vals);
    padded_cut(x.in_lo);
    padded_cut(x.in_hi);
    back_cut(x.out_vals, pad);
    back_cut(x.out_lo, pad);
    back_cut(x.out_hi, pad);
    assert(sort_selectors(y, descending) =~= sort_selectors(x, descending));
}

} // verus!
