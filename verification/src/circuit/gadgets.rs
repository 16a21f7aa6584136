//! Gadgets that several circuits share.

use vstd::arithmetic::div_mod::lemma_fundamental_div_mod;
use vstd::prelude::*;

use crate::circuit::system::bit;
use crate::circuit::system::gather;
use crate::circuit::system::holds_bits;
use crate::circuit::system::ConstraintSystem;
use crate::circuit::system::FieldHash;
use crate::circuit::system::Target;
use crate::circuit::system::MAX_WIRES;
use crate::field::fmul;
use crate::field::fsub;
use crate::field::zero_difference;
use crate::field::zero_product;
use crate::field::MODULUS;

verus! {

/// Taken in the field, `y - x - 1` is below 2^63 if and only if `x < y`, where
/// both are below 2^62.
proof fn close_difference(x: u64, y: u64)
    requires
        x < 0x4000_0000_0000_0000,
        y < 0x4000_0000_0000_0000,
    ensures
        fsub(fsub(y as int, x as int), 1) < 0x8000_0000_0000_0000 <==> x < y,
{
    let p = MODULUS as int;
    if x < y {
        assert(fsub(y as int, x as int) == y - x);
        assert(fsub(y - x, 1) == y - x - 1);
    } else if x == y {
        assert(fsub(y as int, x as int) == 0);
        assert(fsub(0, 1) == p - 1);
    } else {
        assert(fsub(y as int, x as int) == p + y - x);
        assert(fsub(p + y - x, 1) == p + y - x - 1);
    }
}

/// A column of flags adds up to at most its length.
pub proof fn total_of_flags(a: Seq<u64>, n: int)
    requires
        0 <= n <= a.len(),
        forall|i: int| 0 <= i < n ==> #[trigger] a[i] <= 1,
    ensures
        0 <= total(a, n) <= n,
    decreases n,
{
    if n > 0 {
        total_of_flags(a, n - 1);
    }
}

/// A column of flags that are set exactly before `m` adds up to `m`.
pub proof fn total_of_prefix(a: Seq<u64>, n: int, m: int)
    requires
        0 <= n <= a.len(),
        0 <= m,
        forall|i: int| 0 <= i < n ==> #[trigger] a[i] == bit(i < m),
    ensures
        total(a, n) == if n < m {
            n
        } else {
            m
        },
    decreases n,
{
    if n > 0 {
        total_of_prefix(a, n - 1, m);
        assert(a[n - 1] == bit(n - 1 < m));
    }
}

/// The values on `n` consecutive wires.
pub open spec fn column(w: Seq<u64>, first: Target, n: nat) -> Seq<u64> {
    w.subrange(first as int, first + n)
}

/// The sum of the products of the first `n` elements of two columns.
pub open spec fn dot(a: Seq<u64>, b: Seq<u64>, n: int) -> int
    decreases n,
{
    if n <= 0 {
        0
    } else {
        dot(a, b, n - 1) + a[n - 1] * b[n - 1]
    }
}

/// The sum of the first `n` elements of a column.
pub open spec fn total(a: Seq<u64>, n: int) -> int
    decreases n,
{
    if n <= 0 {
        0
    } else {
        total(a, n - 1) + a[n - 1]
    }
}

/// Names `n` consecutive wires.
pub fn column_targets(first: Target, n: usize) -> (r: Vec<Target>)
    requires
        first + n <= usize::MAX,
    ensures
        r@.len() == n,
        forall|i: int| 0 <= i < n ==> #[trigger] r@[i] == first + i,
        forall|w: Seq<u64>|
            first + n <= w.len() ==> #[trigger] gather(w, r@) == column(w, first, n as nat),
{
    let mut r: Vec<Target> = Vec::new();
    let mut i: usize = 0;
    while i < n
        invariant
            i <= n,
            first + n <= usize::MAX,
            r@.len() == i,
            forall|k: int| 0 <= k < i ==> #[trigger] r@[k] == first + k,
        decreases n - i,
    {
        r.push(first + i);
        i = i + 1;
    }
    assert forall|w: Seq<u64>| first + n <= w.len() implies #[trigger] gather(w, r@) == column(
        w,
        first,
        n as nat,
    ) by {
        assert(gather(w, r@) =~= column(w, first, n as nat));
    }
    r
}

impl ConstraintSystem {
    /// Requires `a * b` to be zero.
    pub fn assert_zero_product(&mut self, a: Target, b: Target, zero: Target)
        requires
            old(self).wf(),
            old(self).n_wires <= MAX_WIRES - 1,
            a < old(self).n_wires,
            b < old(self).n_wires,
            zero < old(self).n_wires,
        ensures
            final(self).grows(*old(self), 1),
            forall|w: Seq<u64>, h: FieldHash| #[trigger]
                final(self).runs(w, h) ==> old(self).runs(w, h) && (w[zero as int] == 0 ==> (
                final(self).passes(w) <==> old(self).passes(w) && (w[a as int] == 0 || w[b as int]
                    == 0))),
    {
        let prod: Target = self.mul(a, b);
        self.connect(prod, zero);
        assert forall|w: Seq<u64>, h: FieldHash| #[trigger] self.runs(w, h) && w[zero as int]
            == 0 implies (self.passes(w) <==> old(self).passes(w) && (w[a as int] == 0
            || w[b as int] == 0)) by {
            self.runs_canonical(w, h);
            zero_product(w[a as int] as int, w[b as int] as int);
        }
    }

    /// Requires a wire to be zero or one.
    pub fn assert_boolean(&mut self, f: Target, one: Target, zero: Target)
        requires
            old(self).wf(),
            old(self).n_wires <= MAX_WIRES - 2,
            f < old(self).n_wires,
            one < old(self).n_wires,
            zero < old(self).n_wires,
        ensures
            final(self).grows(*old(self), 2),
            forall|w: Seq<u64>, h: FieldHash| #[trigger]
                final(self).runs(w, h) ==> old(self).runs(w, h) && (w[zero as int] == 0
                    && w[one as int] == 1 ==> (final(self).passes(w) <==> old(self).passes(w)
                    && w[f as int] <= 1)),
    {
        let one_minus_f: Target = self.sub(one, f);
        self.assert_zero_product(f, one_minus_f, zero);
        assert forall|w: Seq<u64>, h: FieldHash| #[trigger] self.runs(w, h) && w[zero as int] == 0
            && w[one as int] == 1 implies (self.passes(w) <==> old(self).passes(w) && w[f as int]
            <= 1) by {
            self.runs_canonical(w, h);
            zero_difference(1, w[f as int] as int);
        }
    }

    /// Requires `b` to be zero wherever the flag `f` is not set.
    pub fn assert_zero_unless(&mut self, f: Target, b: Target, one: Target, zero: Target)
        requires
            old(self).wf(),
            old(self).n_wires <= MAX_WIRES - 2,
            f < old(self).n_wires,
            b < old(self).n_wires,
            one < old(self).n_wires,
            zero < old(self).n_wires,
        ensures
            final(self).grows(*old(self), 2),
            forall|w: Seq<u64>, h: FieldHash| #[trigger]
                final(self).runs(w, h) ==> old(self).runs(w, h) && (w[zero as int] == 0
                    && w[one as int] == 1 ==> (final(self).passes(w) <==> old(self).passes(w) && (
                w[f as int] == 1 || w[b as int] == 0))),
    {
        let one_minus_f: Target = self.sub(one, f);
        self.assert_zero_product(one_minus_f, b, zero);
        assert forall|w: Seq<u64>, h: FieldHash| #[trigger] self.runs(w, h) && w[zero as int] == 0
            && w[one as int] == 1 implies (self.passes(w) <==> old(self).passes(w) && (w[f as int]
            == 1 || w[b as int] == 0)) by {
            self.runs_canonical(w, h);
            zero_difference(1, w[f as int] as int);
        }
    }

    /// Requires `a` and `b` to agree wherever neither `g` nor `f` is zero.
    pub fn assert_equal_where(
        &mut self,
        g: Target,
        f: Target,
        a: Target,
        b: Target,
        zero: Target,
    )
        requires
            old(self).wf(),
            old(self).n_wires <= MAX_WIRES - 3,
            g < old(self).n_wires,
            f < old(self).n_wires,
            a < old(self).n_wires,
            b < old(self).n_wires,
            zero < old(self).n_wires,
        ensures
            final(self).grows(*old(self), 3),
            forall|w: Seq<u64>, h: FieldHash| #[trigger]
                final(self).runs(w, h) ==> old(self).runs(w, h) && (w[zero as int] == 0 ==> (
                final(self).passes(w) <==> old(self).passes(w) && (w[g as int] == 0 || w[f as int]
                    == 0 || w[a as int] == w[b as int]))),
    {
        let diff: Target = self.sub(a, b);
        let gated: Target = self.mul(f, diff);
        self.assert_zero_product(g, gated, zero);
        assert forall|w: Seq<u64>, h: FieldHash| #[trigger] self.runs(w, h) && w[zero as int]
            == 0 implies (self.passes(w) <==> old(self).passes(w) && (w[g as int] == 0
            || w[f as int] == 0 || w[a as int] == w[b as int])) by {
            self.runs_canonical(w, h);
            zero_difference(w[a as int] as int, w[b as int] as int);
            zero_product(w[f as int] as int, w[diff as int] as int);
        }
    }

    /// Adds a wire that says whether `x < y`, where both are below 2^62: the
    /// highest binary digit of `y - x - 1` is clear.
    fn is_less_than_close(&mut self, x: Target, y: Target, one: Target) -> (out: Target)
        requires
            old(self).wf(),
            old(self).n_wires <= MAX_WIRES - 67,
            x < old(self).n_wires,
            y < old(self).n_wires,
            one < old(self).n_wires,
        ensures
            final(self).grows(*old(self), 67),
            out < final(self).n_wires,
            forall|w: Seq<u64>, h: FieldHash| #[trigger]
                final(self).runs(w, h) ==> old(self).runs(w, h) && (w[one as int] == 1
                    && w[x as int] < 0x4000_0000_0000_0000 && w[y as int] < 0x4000_0000_0000_0000
                    ==> w[out as int] == bit(w[x as int] < w[y as int])),
            forall|w: Seq<u64>| #[trigger] final(self).passes(w) <==> old(self).passes(w),
    {
        let diff: Target = self.sub(y, x);
        let diff_m1: Target = self.sub(diff, one);
        let bits: Target = self.bits(diff_m1);
        let out: Target = self.sub(one, bits + 63);
        assert forall|w: Seq<u64>, h: FieldHash| #[trigger] self.runs(w, h) && w[one as int] == 1
            && w[x as int] < 0x4000_0000_0000_0000 && w[y as int]
            < 0x4000_0000_0000_0000 implies w[out as int] == bit(w[x as int] < w[y as int]) by {
            let d: u64 = w[diff_m1 as int];
            reveal(holds_bits);
            assert(w[bits + 63] == (d >> 63u64) & 1);
            assert((d >> 63u64) & 1 == if d < 0x8000_0000_0000_0000u64 {
                0u64
            } else {
                1u64
            }) by (bit_vector);
            close_difference(w[x as int], w[y as int]);
        }
        out
    }

    /// Splits a wire into its two highest binary digits, as a number, and the
    /// number that the other 62 digits stand for.
    fn split_top(&mut self, x: Target) -> (r: (Target, Target))
        requires
            old(self).wf(),
            old(self).n_wires <= MAX_WIRES - 69,
            x < old(self).n_wires,
        ensures
            final(self).grows(*old(self), 69),
            r.0 < final(self).n_wires,
            r.1 < final(self).n_wires,
            forall|w: Seq<u64>, h: FieldHash| #[trigger]
                final(self).runs(w, h) ==> {
                    &&& old(self).runs(w, h)
                    &&& w[r.0 as int] == w[x as int] as int / 0x4000_0000_0000_0000
                    &&& w[r.1 as int] == w[x as int] as int % 0x4000_0000_0000_0000
                },
            forall|w: Seq<u64>| #[trigger] final(self).passes(w) <==> old(self).passes(w),
    {
        let bits: Target = self.bits(x);
        let twice: Target = self.add(bits + 63, bits + 63);
        let top: Target = self.add(bits + 62, twice);
        let unit: Target = self.constant(0x4000_0000_0000_0000);
        let high: Target = self.mul(unit, top);
        let rest: Target = self.sub(x, high);
        assert forall|w: Seq<u64>, h: FieldHash| #[trigger] self.runs(w, h) implies ({
            &&& w[top as int] == w[x as int] as int / 0x4000_0000_0000_0000
            &&& w[rest as int] == w[x as int] as int % 0x4000_0000_0000_0000
        }) by {
            self.runs_canonical(w, h);
            reveal(holds_bits);
            let v: u64 = w[x as int];
            assert(w[bits + 62] == (v >> 62u64) & 1);
            assert(w[bits + 63] == (v >> 63u64) & 1);
            assert((v >> 62u64) & 1 == (v / 0x4000_0000_0000_0000u64) % 2 && (v >> 63u64) & 1 == (v
                / 0x8000_0000_0000_0000u64)) by (bit_vector);
            let t = v as int / 0x4000_0000_0000_0000;
            assert(w[top as int] == t);
            assert(w[unit as int] == 0x4000_0000_0000_0000);
            assert(w[x as int] < MODULUS);
            lemma_fundamental_div_mod(v as int, 0x4000_0000_0000_0000);
            assert(0 <= 0x4000_0000_0000_0000 * t <= v);
            assert(w[high as int] == fmul(0x4000_0000_0000_0000, t));
            assert(w[high as int] == 0x4000_0000_0000_0000 * t);
        }
        (top, rest)
    }

    /// Adds a wire that says whether `x < y`, as canonical values. Both are
    /// split, and the high parts are compared first, then the low parts.
    pub fn is_less_than(&mut self, x: Target, y: Target, one: Target) -> (out: Target)
        requires
            old(self).wf(),
            old(self).n_wires <= MAX_WIRES - 275,
            x < old(self).n_wires,
            y < old(self).n_wires,
            one < old(self).n_wires,
        ensures
            final(self).grows(*old(self), 275),
            out < final(self).n_wires,
            forall|w: Seq<u64>, h: FieldHash| #[trigger]
                final(self).runs(w, h) ==> old(self).runs(w, h) && (w[one as int] == 1
                    ==> w[out as int] == bit(w[x as int] < w[y as int])),
            forall|w: Seq<u64>| #[trigger] final(self).passes(w) <==> old(self).passes(w),
    {
        let sx: (Target, Target) = self.split_top(x);
        let sy: (Target, Target) = self.split_top(y);
        let top_less: Target = self.is_less_than_close(sx.0, sy.0, one);
        let top_same: Target = self.is_equal(sx.0, sy.0);
        let rest_less: Target = self.is_less_than_close(sx.1, sy.1, one);
        let decided_below: Target = self.mul(top_same, rest_less);
        let out: Target = self.add(top_less, decided_below);
        assert forall|w: Seq<u64>, h: FieldHash| #[trigger] self.runs(w, h) && w[one as int]
            == 1 implies w[out as int] == bit(w[x as int] < w[y as int]) by {
            let a = w[x as int] as int;
            let b = w[y as int] as int;
            let m = 0x4000_0000_0000_0000int;
            lemma_fundamental_div_mod(a, m);
            lemma_fundamental_div_mod(b, m);
            assert(0 * w[rest_less as int] == 0);
            assert(1 * w[rest_less as int] == w[rest_less as int]);
        }
        out
    }
}

} // verus!
