//! The field's order is prime, so the field has no zero divisors.

use vstd::arithmetic::div_mod::*;
use vstd::arithmetic::mul::*;
use vstd::arithmetic::power::*;
use vstd::arithmetic::power2::*;
use vstd::prelude::*;
use vstd::set_lib::*;

use crate::field::MODULUS;

verus! {

/// An element of multiplicative order 2^32.
spec fn root() -> int {
    1753635133440165772
}

/// Two to the power 32, as a literal.
spec fn two_32() -> int {
    4294967296
}

/// Squaring in the exponent.
proof fn square_step(e: nat, c: int, c2: int)
    requires
        pow(root(), e) % (MODULUS as int) == c,
        (c * c) % (MODULUS as int) == c2,
    ensures
        pow(root(), 2 * e) % (MODULUS as int) == c2,
{
    lemma_pow_adds(root(), e, e);
    lemma_mul_mod_noop(pow(root(), e), pow(root(), e), MODULUS as int);
}

/// The 2^31-th power of the root is minus one.
proof fn root_half_order()
    ensures
        pow(root(), 2147483648) % (MODULUS as int) == MODULUS - 1,
{
    lemma_pow1(root());
    square_step(1, root(), 4614640910117430873);
    square_step(2, 4614640910117430873, 9123114210336311365);
    square_step(4, 9123114210336311365, 16116352524544190054);
    square_step(8, 16116352524544190054, 6414415596519834757);
    square_step(16, 6414415596519834757, 1213594585890690845);
    square_step(32, 1213594585890690845, 17096174751763063430);
    square_step(64, 17096174751763063430, 5456943929260765144);
    square_step(128, 5456943929260765144, 9713644485405565297);
    square_step(256, 9713644485405565297, 16905767614792059275);
    square_step(512, 16905767614792059275, 5416168637041100469);
    square_step(1024, 5416168637041100469, 17654865857378133588);
    square_step(2048, 17654865857378133588, 3511170319078647661);
    square_step(4096, 3511170319078647661, 18146160046829613826);
    square_step(8192, 18146160046829613826, 9306717745644682924);
    square_step(16384, 9306717745644682924, 12380578893860276750);
    square_step(32768, 12380578893860276750, 6115771955107415310);
    square_step(65536, 6115771955107415310, 17776499369601055404);
    square_step(131072, 17776499369601055404, 16207902636198568418);
    square_step(262144, 16207902636198568418, 1532612707718625687);
    square_step(524288, 1532612707718625687, 17492915097719143606);
    square_step(1048576, 17492915097719143606, 455906449640507599);
    square_step(2097152, 455906449640507599, 11353340290879379826);
    square_step(4194304, 11353340290879379826, 1803076106186727246);
    square_step(8388608, 1803076106186727246, 13797081185216407910);
    square_step(16777216, 13797081185216407910, 17870292113338400769);
    square_step(33554432, 17870292113338400769, 549755813888);
    square_step(67108864, 549755813888, 70368744161280);
    square_step(134217728, 70368744161280, 17293822564807737345);
    square_step(268435456, 17293822564807737345, 18446744069397807105);
    square_step(536870912, 18446744069397807105, 281474976710656);
    square_step(1073741824, 281474976710656, 18446744069414584320);
}

/// An odd power of minus one is minus one.
proof fn odd_power_of_minus_one(m: nat)
    requires
        m % 2 == 1,
    ensures
        pow(-1, m) == -1,
    decreases m,
{
    if m == 1 {
        lemma_pow1(-1);
    } else {
        odd_power_of_minus_one((m - 2) as nat);
        lemma_pow_adds(-1, 2, (m - 2) as nat);
        lemma_square_is_pow2(-1);
    }
}

/// Modulo a divisor of the order, the 2^31-th power of the root is minus one.
proof fn root_half_order_mod(d: int)
    requires
        d > 2,
        (MODULUS as int) % d == 0,
    ensures
        pow(root(), 2147483648) % d == (-1int) % d,
{
    root_half_order();
    let x = pow(root(), 2147483648);
    let m = MODULUS as int;
    lemma_fundamental_div_mod(x, m);
    lemma_fundamental_div_mod(m, d);
    let q = x / m + 1;
    assert(x == m * q - 1) by {
        lemma_mul_is_distributive_add(m, x / m, 1);
    }
    assert(m * q == d * ((m / d) * q)) by {
        lemma_mul_is_associative(d, m / d, q);
    }
    lemma_mod_multiples_vanish((m / d) * q, -1, d);
}

/// If a power `k = t * m` of the root is one modulo a divisor `d > 2` of the
/// order, where `t` is the `j`-th power of two, then `k` is a multiple of 2^32.
proof fn root_order_descent(d: int, k: nat, j: nat, m: nat)
    requires
        d > 2,
        (MODULUS as int) % d == 0,
        pow(root(), k) % d == 1,
        j <= 31,
        k == pow2(j) * m,
    ensures
        k % (two_32() as nat) == 0,
    decreases m, 32 - j,
{
    lemma2_to64();
    if m % 2 == 1 {
        let u = pow2((31 - j) as nat);
        lemma_pow2_adds(j, (31 - j) as nat);
        // Raise the power to `u`: the exponent becomes 2^31 * m.
        assert(k * u == 2147483648 * m) by {
            lemma_mul_is_associative(m as int, pow2(j) as int, u as int);
            lemma_mul_is_commutative(m as int, pow2(j) as int);
            lemma_mul_is_commutative(m as int, 2147483648);
        }
        lemma_pow_multiplies(root(), k, u);
        lemma_pow_mod_noop(pow(root(), k), u, d);
        lemma1_pow(u);
        assert(pow(root(), k * u) % d == 1int % d);
        root_half_order_mod(d);
        lemma_pow_multiplies(root(), 2147483648, m);
        lemma_pow_mod_noop(pow(root(), 2147483648), m, d);
        lemma_pow_mod_noop(-1, m, d);
        odd_power_of_minus_one(m);
        assert((-1int) % d == 1int % d);
        lemma_fundamental_div_mod_converse(-1, d, -1, d - 1);
        lemma_small_mod(1, d as nat);
        assert(false);
    } else {
        let n = m / 2;
        assert(m == 2 * n);
        lemma_pow2_unfold(j + 1);
        assert(k == pow2(j + 1) * n) by {
            lemma_mul_is_associative(pow2(j) as int, 2, n as int);
            lemma_mul_is_commutative(pow2(j) as int, 2);
        }
        if j == 31 {
            assert(pow2(j + 1) == 4294967296);
            assert(k == n as int * two_32()) by {
                lemma_mul_is_commutative(n as int, two_32());
            }
            lemma_mod_multiples_basic(n as int, two_32());
            assert(k as int % two_32() == 0);
        } else if m == 0 {
            lemma_mul_by_zero_is_zero(pow2(j) as int);
            assert(k == 0);
        } else {
            root_order_descent(d, k, j + 1, n);
        }
    }
}

/// Powers of the root below 2^32 are distinct modulo a divisor of the order.
proof fn root_powers_distinct(d: int, a: nat, b: nat)
    requires
        d > 2,
        (MODULUS as int) % d == 0,
        a < b < two_32(),
    ensures
        pow(root(), a) % d != pow(root(), b) % d,
{
    if pow(root(), a) % d == pow(root(), b) % d {
        // The root is invertible: its 2^32-th power is one.
        root_half_order_mod(d);
        let half = pow(root(), 2147483648);
        lemma_pow_adds(root(), 2147483648, 2147483648);
        lemma_mul_mod_noop(half, half, d);
        lemma_mul_mod_noop(-1, -1, d);
        lemma_small_mod(1, d as nat);
        assert(pow(root(), 4294967296) % d == 1);
        let c = (two_32() - a) as nat;
        let k = (b - a) as nat;
        lemma_pow_adds(root(), a, c);
        lemma_pow_adds(root(), b, c);
        lemma_mul_mod_noop(pow(root(), a), pow(root(), c), d);
        lemma_mul_mod_noop(pow(root(), b), pow(root(), c), d);
        assert(pow(root(), b + c) % d == 1);
        lemma_pow_adds(root(), 4294967296, k);
        lemma_mul_mod_noop(pow(root(), 4294967296), pow(root(), k), d);
        lemma_mod_twice(pow(root(), k), d);
        assert(b + c == 4294967296 + k);
        assert(pow(root(), k) % d == 1);
        lemma2_to64();
        root_order_descent(d, k, 0, k);
        lemma_small_mod(k, two_32() as nat);
        assert(false);
    }
}

/// Every divisor of the order but one is at least 2^32.
proof fn divisor_is_large(d: int)
    requires
        d > 1,
        (MODULUS as int) % d == 0,
    ensures
        d >= two_32(),
{
    if d > 2 {
        let x = set_int_range(0, two_32());
        let y = set_int_range(0, d);
        let f = |i: int| pow(root(), i as nat) % d;
        lemma_int_range(0, two_32());
        lemma_int_range(0, d);
        assert forall|a: int, b: int| x.contains(a) && x.contains(b) && #[trigger] f(a)
            == #[trigger] f(b) implies a == b by {
            if a < b {
                root_powers_distinct(d, a as nat, b as nat);
            } else if b < a {
                root_powers_distinct(d, b as nat, a as nat);
            }
        }
        lemma_map_size(x, x.map(f), f);
        assert(x.map(f).subset_of(y)) by {
            assert forall|v: int| x.map(f).contains(v) implies y.contains(v) by {
                let i = choose|i: int| x.contains(i) && f(i) == v;
                lemma_mod_bound(pow(root(), i as nat), d);
            }
        }
        lemma_len_subset(x.map(f), y);
    }
}

/// The order is prime: no number strictly between one and it divides it.
pub proof fn modulus_is_prime(d: int)
    requires
        1 < d < MODULUS,
    ensures
        (MODULUS as int) % d != 0,
{
    let m = MODULUS as int;
    if m % d == 0 {
        divisor_is_large(d);
        let e = m / d;
        lemma_fundamental_div_mod(m, d);
        assert(m == d * e);
        assert(e > 1) by (nonlinear_arith)
            requires
                m == d * e,
                1 < d < m,
        ;
        assert(m % e == 0) by {
            lemma_mod_multiples_basic(d, e);
        }
        divisor_is_large(e);
        assert(d * e >= two_32() * two_32()) by (nonlinear_arith)
            requires
                d >= two_32(),
                e >= two_32(),
        ;
    }
}

/// Euclid's lemma for the order: if it divides `m * y` but not `m`, then it
/// divides `y`.
proof fn euclid(m: int, y: int)
    requires
        0 < m < MODULUS,
        (m * y) % (MODULUS as int) == 0,
    ensures
        y % (MODULUS as int) == 0,
    decreases m,
{
    let p = MODULUS as int;
    if m > 1 {
        modulus_is_prime(m);
        let r = p % m;
        let q = p / m;
        lemma_fundamental_div_mod(p, m);
        lemma_mod_bound(p, m);
        assert(r * y == p * y - q * (m * y)) by (nonlinear_arith)
            requires
                p == m * q + r,
        ;
        lemma_mod_multiples_basic(y, p);
        lemma_mul_mod_noop_right(q, m * y, p);
        lemma_sub_mod_noop(p * y, q * (m * y), p);
        assert((r * y) % p == 0) by {
            lemma_mul_is_commutative(p, y);
        }
        euclid(r, y);
    }
}

/// The field has no zero divisors.
pub proof fn no_zero_divisors(x: int, y: int)
    requires
        0 <= x < MODULUS,
        0 <= y < MODULUS,
        (x * y) % (MODULUS as int) == 0,
    ensures
        x == 0 || y == 0,
{
    if x != 0 {
        euclid(x, y);
        lemma_small_mod(y as nat, MODULUS as nat);
    }
}

} // verus!
