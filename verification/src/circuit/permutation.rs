//! Products over rows, and how they see permutations.

use vstd::arithmetic::div_mod::*;
use vstd::arithmetic::mul::lemma_mul_is_associative;
use vstd::arithmetic::mul::lemma_mul_is_commutative;
use vstd::prelude::*;
use vstd::set_lib::lemma_int_range;
use vstd::set_lib::set_int_range;

use crate::field::fsub;
use crate::field::prime::no_zero_divisors;
use crate::field::zero_difference;
use crate::field::zero_product;
use crate::field::MODULUS;

verus! {

/// The product of `f` over a sequence.
pub open spec fn product_of<T>(s: Seq<T>, f: spec_fn(T) -> int) -> int
    decreases s.len(),
{
    if s.len() == 0 {
        1
    } else {
        product_of(s.drop_last(), f) * f(s.last())
    }
}

/// The product over a concatenation.
pub proof fn product_of_concat<T>(s: Seq<T>, t: Seq<T>, f: spec_fn(T) -> int)
    ensures
        product_of(s + t, f) == product_of(s, f) * product_of(t, f),
    decreases t.len(),
{
    if t.len() == 0 {
        assert(s + t =~= s);
    } else {
        assert((s + t).drop_last() =~= s + t.drop_last());
        product_of_concat(s, t.drop_last(), f);
        lemma_mul_is_associative(product_of(s, f), product_of(t.drop_last(), f), f(t.last()));
    }
}

/// Taking one factor out.
pub proof fn product_of_remove<T>(s: Seq<T>, i: int, f: spec_fn(T) -> int)
    requires
        0 <= i < s.len(),
    ensures
        product_of(s, f) == f(s[i]) * product_of(s.remove(i), f),
    decreases s.len(),
{
    let a = s.take(i);
    let b = s.skip(i + 1);
    let one = seq![s[i]];
    assert(s =~= a + one + b);
    assert(s.remove(i) =~= a + b);
    product_of_concat(a + one, b, f);
    product_of_concat(a, one, f);
    product_of_concat(a, b, f);
    assert(one.drop_last() =~= Seq::<T>::empty());
    assert(product_of(one, f) == 1 * f(s[i])) by {
        reveal_with_fuel(product_of, 2);
    }
    lemma_mul_is_commutative(product_of(a, f), f(s[i]));
    lemma_mul_is_associative(f(s[i]), product_of(a, f), product_of(b, f));
}

/// A product does not see the order of its factors.
pub proof fn product_of_permutation<T>(s: Seq<T>, t: Seq<T>, f: spec_fn(T) -> int)
    requires
        s.to_multiset() == t.to_multiset(),
    ensures
        product_of(s, f) == product_of(t, f),
    decreases s.len(),
{
    s.to_multiset_ensures();
    t.to_multiset_ensures();
    assert(s.len() == t.len());
    if s.len() > 0 {
        let x = s.last();
        assert(s[s.len() - 1] == x);
        assert(s.contains(x));
        assert(s.to_multiset().count(x) > 0);
        assert(t.contains(x));
        let i = choose|i: int| 0 <= i < t.len() && t[i] == x;
        assert(s.remove(s.len() - 1) =~= s.drop_last());
        assert(s.drop_last().to_multiset() =~= s.to_multiset().remove(x));
        assert(t.remove(i).to_multiset() =~= t.to_multiset().remove(x));
        product_of_permutation(s.drop_last(), t.remove(i), f);
        product_of_remove(t, i, f);
        lemma_mul_is_commutative(product_of(s.drop_last(), f), f(x));
    }
}

/// The sum of `f` over a sequence.
pub open spec fn sum_of<T>(s: Seq<T>, f: spec_fn(T) -> int) -> int
    decreases s.len(),
{
    if s.len() == 0 {
        0
    } else {
        sum_of(s.drop_last(), f) + f(s.last())
    }
}

/// Taking one summand out.
proof fn sum_of_remove<T>(s: Seq<T>, i: int, f: spec_fn(T) -> int)
    requires
        0 <= i < s.len(),
    ensures
        sum_of(s, f) == f(s[i]) + sum_of(s.remove(i), f),
    decreases s.len(),
{
    if i == s.len() - 1 {
        assert(s.remove(i) =~= s.drop_last());
    } else {
        sum_of_remove(s.drop_last(), i, f);
        assert(s.remove(i).drop_last() =~= s.drop_last().remove(i));
        assert(s.remove(i).last() == s.last());
    }
}

/// A sum does not see the order of its summands.
pub proof fn sum_of_permutation<T>(s: Seq<T>, t: Seq<T>, f: spec_fn(T) -> int)
    requires
        s.to_multiset() == t.to_multiset(),
    ensures
        sum_of(s, f) == sum_of(t, f),
    decreases s.len(),
{
    s.to_multiset_ensures();
    t.to_multiset_ensures();
    assert(s.len() == t.len());
    if s.len() > 0 {
        let x = s.last();
        assert(s[s.len() - 1] == x);
        assert(s.contains(x));
        assert(s.to_multiset().count(x) > 0);
        assert(t.contains(x));
        let i = choose|i: int| 0 <= i < t.len() && t[i] == x;
        assert(s.remove(s.len() - 1) =~= s.drop_last());
        assert(s.drop_last().to_multiset() =~= s.to_multiset().remove(x));
        assert(t.remove(i).to_multiset() =~= t.to_multiset().remove(x));
        sum_of_permutation(s.drop_last(), t.remove(i), f);
        sum_of_remove(t, i, f);
    }
}

/// Padding two sequences alike, at either end, makes and breaks no permutation.
pub proof fn padding_permutes<T>(s: Seq<T>, t: Seq<T>, pad: Seq<T>)
    ensures
        (s + pad).to_multiset() == (t + pad).to_multiset() <==> s.to_multiset() == t.to_multiset(),
        (s + pad).to_multiset() == (pad + t).to_multiset() <==> s.to_multiset() == t.to_multiset(),
{
    let x = s.to_multiset();
    let y = t.to_multiset();
    let z = pad.to_multiset();
    vstd::seq_lib::lemma_multiset_commutative(s, pad);
    vstd::seq_lib::lemma_multiset_commutative(t, pad);
    vstd::seq_lib::lemma_multiset_commutative(pad, t);
    assert(z.add(y) =~= y.add(z));
    if x.add(z) == y.add(z) {
        assert forall|v: T| #[trigger] x.count(v) == y.count(v) by {
            assert(x.add(z).count(v) == y.add(z).count(v));
        }
        assert(x =~= y);
    }
}

/// Mapping permuted sequences gives permuted sequences.
pub proof fn mapped_permutation<A, B>(s: Seq<A>, t: Seq<A>, f: spec_fn(A) -> B)
    requires
        s.to_multiset() == t.to_multiset(),
    ensures
        s.map_values(f).to_multiset() == t.map_values(f).to_multiset(),
    decreases s.len(),
{
    s.to_multiset_ensures();
    t.to_multiset_ensures();
    if s.len() == 0 {
        assert(s.map_values(f) =~= t.map_values(f));
    } else {
        let x = s.last();
        let k = s.len() - 1;
        assert(s[k] == x);
        assert(s.contains(x));
        assert(s.to_multiset().count(x) > 0);
        assert(t.contains(x));
        let i = choose|i: int| 0 <= i < t.len() && t[i] == x;
        assert(s.remove(k).to_multiset() =~= t.remove(i).to_multiset());
        mapped_permutation(s.remove(k), t.remove(i), f);
        let a = s.map_values(f);
        let b = t.map_values(f);
        a.to_multiset_ensures();
        b.to_multiset_ensures();
        assert(s.remove(k).map_values(f) =~= a.remove(k));
        assert(t.remove(i).map_values(f) =~= b.remove(i));
        assert(a[k] == f(x) && b[i] == f(x));
        assert(a.contains(f(x)) && b.contains(f(x)));
        assert(a.to_multiset() =~= a.remove(k).to_multiset().insert(f(x)));
        assert(b.to_multiset() =~= b.remove(i).to_multiset().insert(f(x)));
    }
}

/// The value at `x` of the polynomial with the given coefficients, the constant
/// one first.
spec fn eval(c: Seq<int>, x: int) -> int
    decreases c.len(),
{
    if c.len() == 0 {
        0
    } else {
        c[0] + x * eval(c.skip(1), x)
    }
}

/// Dividing a polynomial by `x - r` leaves its value at `r`.
proof fn divide(c: Seq<int>, r: int) -> (q: Seq<int>)
    requires
        c.len() > 0,
    ensures
        q.len() == c.len() - 1,
        forall|x: int| #[trigger] eval(c, x) == eval(c, r) + (x - r) * eval(q, x),
    decreases c.len(),
{
    let rest = c.skip(1);
    if rest.len() == 0 {
        let q = Seq::<int>::empty();
        assert forall|x: int| #[trigger] eval(c, x) == eval(c, r) + (x - r) * eval(q, x) by {
            assert(x * eval(rest, x) == 0);
            assert(r * eval(rest, r) == 0);
            assert((x - r) * eval(q, x) == 0);
        }
        q
    } else {
        let p = divide(rest, r);
        let q = seq![eval(rest, r)] + p;
        assert(q.skip(1) =~= p);
        assert forall|x: int| #[trigger] eval(c, x) == eval(c, r) + (x - r) * eval(q, x) by {
            let a = eval(rest, r);
            let b = eval(p, x);
            assert(eval(rest, x) == a + (x - r) * b);
            assert(eval(q, x) == a + x * b);
            assert(x * (a + (x - r) * b) == r * a + (x - r) * (a + x * b)) by (nonlinear_arith);
        }
        q
    }
}

/// A polynomial with at least as many roots in the field as coefficients
/// vanishes everywhere.
proof fn too_many_roots(c: Seq<int>, roots: Set<int>, x: int)
    requires
        roots.finite(),
        roots.len() >= c.len(),
        forall|r: int| #[trigger]
            roots.contains(r) ==> 0 <= r < MODULUS && eval(c, r) % (MODULUS as int) == 0,
    ensures
        eval(c, x) % (MODULUS as int) == 0,
    decreases c.len(),
{
    let p = MODULUS as int;
    if c.len() > 0 {
        let r = roots.choose();
        assert(roots.contains(r));
        let q = divide(c, r);
        let rest = roots.remove(r);
        assert forall|s: int| #[trigger] rest.contains(s) implies 0 <= s < MODULUS && eval(q, s) % p
            == 0 by {
            assert(roots.contains(s));
            let d = fsub(s, r);
            let y = eval(q, s);
            lemma_mod_bound(y, p);
            zero_difference(s, r);
            assert(((s - r) * y) % p == 0) by {
                assert(eval(c, s) == eval(c, r) + (s - r) * y);
                lemma_sub_mod_noop(eval(c, s), eval(c, r), p);
            }
            assert((d * (y % p)) % p == 0) by {
                lemma_mul_mod_noop(s - r, y, p);
            }
            no_zero_divisors(d, y % p);
        }
        too_many_roots(q, rest, x);
        let y = eval(q, x);
        assert(eval(c, x) == eval(c, r) + (x - r) * y);
        lemma_mul_mod_noop_right(x - r, y, p);
        lemma_add_mod_noop(eval(c, r), (x - r) * y, p);
        assert((x - r) * 0 == 0);
    }
}

/// The coefficients of a polynomial times `a + x`.
proof fn shifted(c: Seq<int>, a: int) -> (d: Seq<int>)
    ensures
        d.len() == c.len() + 1,
        forall|x: int| #[trigger] eval(d, x) == (a + x) * eval(c, x),
    decreases c.len(),
{
    if c.len() == 0 {
        let d = seq![0int];
        assert forall|x: int| #[trigger] eval(d, x) == (a + x) * eval(c, x) by {
            assert(x * eval(d.skip(1), x) == 0);
            assert((a + x) * eval(c, x) == 0);
        }
        d
    } else {
        // (a + x)(c0 + x C) = a c0 + x (c0 + (a + x) C)
        let e = shifted(c.skip(1), a);
        let f = seq![e[0] + c[0]] + e.skip(1);
        let d = seq![a * c[0]] + f;
        assert(d.skip(1) =~= f);
        assert(f.skip(1) =~= e.skip(1));
        assert forall|x: int| #[trigger] eval(d, x) == (a + x) * eval(c, x) by {
            let y = eval(c.skip(1), x);
            let c0 = c[0];
            assert(eval(e, x) == (a + x) * y);
            assert(eval(f, x) == c0 + eval(e, x));
            assert(a * c0 + x * (c0 + (a + x) * y) == (a + x) * (c0 + x * y)) by (nonlinear_arith);
        }
        d
    }
}

/// The coefficients of the difference of two polynomials of one length.
proof fn difference(c: Seq<int>, d: Seq<int>) -> (e: Seq<int>)
    requires
        c.len() == d.len(),
    ensures
        e.len() == c.len(),
        forall|x: int| #[trigger] eval(e, x) == eval(c, x) - eval(d, x),
    decreases c.len(),
{
    if c.len() == 0 {
        Seq::empty()
    } else {
        let f = difference(c.skip(1), d.skip(1));
        let e = seq![c[0] - d[0]] + f;
        assert(e.skip(1) =~= f);
        assert forall|x: int| #[trigger] eval(e, x) == eval(c, x) - eval(d, x) by {
            let u = eval(c.skip(1), x);
            let v = eval(d.skip(1), x);
            assert(eval(f, x) == u - v);
            assert(x * (u - v) == x * u - x * v) by (nonlinear_arith);
        }
        e
    }
}

/// A field element shifted by a challenge.
pub open spec fn shift(r: int) -> spec_fn(int) -> int {
    |v: int| v + r
}

/// The product of the elements of `s`, each shifted by `r`.
pub open spec fn shifted_product(s: Seq<int>, r: int) -> int {
    product_of(s, shift(r))
}

/// The shifted product is a polynomial in the shift.
proof fn product_polynomial(s: Seq<int>) -> (c: Seq<int>)
    ensures
        c.len() == s.len() + 1,
        forall|r: int| #[trigger] eval(c, r) == shifted_product(s, r),
    decreases s.len(),
{
    if s.len() == 0 {
        let c = seq![1int];
        assert forall|r: int| #[trigger] eval(c, r) == shifted_product(s, r) by {
            assert(r * eval(c.skip(1), r) == 0);
        }
        c
    } else {
        let d = product_polynomial(s.drop_last());
        let c = shifted(d, s.last());
        assert forall|r: int| #[trigger] eval(c, r) == shifted_product(s, r) by {
            assert(eval(d, r) == shifted_product(s.drop_last(), r));
            lemma_mul_is_commutative(s.last() + r, eval(d, r));
        }
        c
    }
}

/// The challenges under which two sequences have the same shifted product.
pub open spec fn colliding(s: Seq<int>, t: Seq<int>) -> Set<int> {
    Set::new(
        |r: int|
            0 <= r < MODULUS && shifted_product(s, r) % (MODULUS as int) == shifted_product(t, r) % (
            MODULUS as int),
    )
}

/// The elements are canonical.
pub open spec fn canonical_all(s: Seq<int>) -> bool {
    forall|i: int| 0 <= i < s.len() ==> 0 <= #[trigger] s[i] < MODULUS
}

/// The shifted product vanishes where the shift takes an element to zero, and
/// nowhere else.
proof fn product_root(s: Seq<int>, v: int)
    requires
        canonical_all(s),
        0 <= v < MODULUS,
    ensures
        shifted_product(s, fsub(0, v)) % (MODULUS as int) == 0 <==> s.contains(v),
    decreases s.len(),
{
    let p = MODULUS as int;
    let r = fsub(0, v);
    if s.len() == 0 {
    } else {
        let t = s.drop_last();
        assert forall|i: int| 0 <= i < t.len() implies 0 <= #[trigger] t[i] < MODULUS by {
            assert(t[i] == s[i]);
        }
        product_root(t, v);
        let x = shifted_product(t, r);
        let y = s.last() + r;
        assert(shifted_product(s, r) == x * y);
        lemma_mul_mod_noop(x, y, p);
        lemma_mod_bound(x, p);
        lemma_mod_bound(y, p);
        zero_product(x % p, y % p);
        assert(y % p == 0 <==> s.last() == v) by {
            let last = s.last();
            assert(0 <= s[s.len() - 1] < MODULUS);
            lemma_add_mod_noop_right(last, 0 - v, p);
            zero_difference(last, v);
        }
        assert(s.contains(v) <==> t.contains(v) || s.last() == v) by {
            if t.contains(v) {
                let i = choose|i: int| 0 <= i < t.len() && t[i] == v;
                assert(s[i] == v);
            }
            if s.contains(v) {
                let i = choose|i: int| 0 <= i < s.len() && s[i] == v;
                if i < t.len() {
                    assert(t[i] == v);
                }
            }
            if s.last() == v {
                assert(s[s.len() - 1] == v);
            }
        }
    }
}

/// The grand product binds: if two columns of canonical elements are not
/// permutations of each other, at most as many challenges as there are rows let
/// them have the same product.
pub proof fn few_collisions(s: Seq<int>, t: Seq<int>)
    requires
        s.len() == t.len(),
        canonical_all(s),
        canonical_all(t),
        s.to_multiset() != t.to_multiset(),
    ensures
        colliding(s, t).finite(),
        colliding(s, t).len() <= s.len(),
    decreases s.len(),
{
    let p = MODULUS as int;
    s.to_multiset_ensures();
    t.to_multiset_ensures();
    let bad = colliding(s, t);
    lemma_int_range(0, p);
    assert(bad.subset_of(set_int_range(0, p)));
    vstd::set_lib::lemma_set_subset_finite(set_int_range(0, p), bad);
    if s.len() == 0 {
        assert(s =~= t);
        assert(false);
    } else if exists|i: int, j: int| 0 <= i < s.len() && 0 <= j < t.len() && s[i] == t[j] {
        // A common element: take it out of both.
        let (i, j) = choose|i: int, j: int|
            0 <= i < s.len() && 0 <= j < t.len() && s[i] == t[j];
        let v = s[i];
        let s2 = s.remove(i);
        let t2 = t.remove(j);
        assert(s2.to_multiset() =~= s.to_multiset().remove(v));
        assert(t2.to_multiset() =~= t.to_multiset().remove(v));
        assert(s.contains(v));
        assert(t.contains(v));
        if s2.to_multiset() == t2.to_multiset() {
            assert(s.to_multiset() =~= s2.to_multiset().insert(v));
            assert(t.to_multiset() =~= t2.to_multiset().insert(v));
            assert(false);
        }
        few_collisions(s2, t2);
        let rest = colliding(s2, t2);
        let r0 = fsub(0, v);
        assert forall|r: int| bad.contains(r) implies rest.insert(r0).contains(r) by {
            product_of_remove(s, i, shift(r));
            product_of_remove(t, j, shift(r));
            let x = shifted_product(s2, r);
            let y = shifted_product(t2, r);
            let k = v + r;
            assert((k * x) % p == (k * y) % p);
            assert((k * x - k * y) % p == 0) by {
                lemma_sub_mod_noop(k * x, k * y, p);
            }
            assert(k * x - k * y == k * (x - y)) by (nonlinear_arith);
            lemma_mul_mod_noop(k, x - y, p);
            lemma_mod_bound(k, p);
            lemma_mod_bound(x - y, p);
            no_zero_divisors(k % p, (x - y) % p);
            if k % p == 0 {
                // The challenge is the negative of the common element.
                zero_difference(0, v);
                lemma_fundamental_div_mod(k, p);
                assert(r == r0) by {
                    if v == 0 {
                        assert(k == r);
                        lemma_small_mod(r as nat, p as nat);
                    } else {
                        assert(0 < k < 2 * p);
                        assert(k == p * (k / p));
                        assert(k / p == 1) by (nonlinear_arith)
                            requires
                                k == p * (k / p),
                                0 < k < 2 * p,
                                p > 0,
                        ;
                        assert(k == p);
                        lemma_mod_multiples_vanish(1, 0 - v, p);
                        lemma_small_mod((p - v) as nat, p as nat);
                    }
                }
            } else {
                lemma_mod_equivalence(x, y, p);
                assert(rest.contains(r));
            }
        }
        assert(bad.subset_of(rest.insert(r0)));
        vstd::set_lib::lemma_len_subset(bad, rest.insert(r0));
    } else {
        // No common element: the difference does not vanish at minus s[0].
        let v = s[0];
        let c = product_polynomial(s);
        let d = product_polynomial(t);
        let e = difference(c, d);
        let r0 = fsub(0, v);
        if bad.len() > s.len() {
            assert forall|r: int| #[trigger] bad.contains(r) implies 0 <= r < MODULUS && eval(e, r)
                % p == 0 by {
                assert(eval(c, r) == shifted_product(s, r));
                assert(eval(d, r) == shifted_product(t, r));
                lemma_sub_mod_noop(eval(c, r), eval(d, r), p);
            }
            too_many_roots(e, bad, r0);
            product_root(s, v);
            product_root(t, v);
            assert(s.contains(v));
            assert(eval(c, r0) == shifted_product(s, r0));
            assert(eval(d, r0) == shifted_product(t, r0));
            lemma_mod_equivalence(eval(c, r0), eval(d, r0), p);
            assert(t.contains(v));
            assert(false);
        }
    }
}

} // verus!
