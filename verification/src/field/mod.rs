//! Arithmetic in the Goldilocks field, the prime field of order
//! 2^64 - 2^32 + 1.

use vstd::arithmetic::div_mod::lemma_add_mod_noop;
use vstd::arithmetic::div_mod::lemma_mod_multiples_vanish;
use vstd::arithmetic::div_mod::lemma_mul_mod_noop;
use vstd::prelude::*;

use crate::encoding::le_bytes;
use crate::encoding::push_le;

pub mod prime;

verus! {

/// The order of the field.
pub const MODULUS: u64 = 0xFFFF_FFFF_0000_0001;

/// A field element, held as a machine word.
#[derive(Debug, Clone, Copy, PartialEq, Eq, Structural)]
pub struct FieldElement(pub u64);

impl FieldElement {
    /// The eight little-endian bytes of the canonical value.
    pub fn to_canonical_bytes(&self) -> (r: Vec<u8>)
        ensures
            r@ == le_bytes(residue(self.0) as nat, 8),
    {
        let mut r: Vec<u8> = Vec::new();
        push_le(&mut r, canonical(self.0));
        assert(r@ =~= le_bytes(residue(self.0) as nat, 8));
        r
    }
}

/// The sum of two residues.
pub open spec fn fadd(a: int, b: int) -> int {
    (a + b) % (MODULUS as int)
}

/// The difference of two residues.
pub open spec fn fsub(a: int, b: int) -> int {
    (a - b) % (MODULUS as int)
}

/// The product of two residues.
pub open spec fn fmul(a: int, b: int) -> int {
    (a * b) % (MODULUS as int)
}

/// The residue that a machine word stands for.
pub open spec fn residue(v: u64) -> u64 {
    (v as int % MODULUS as int) as u64
}

/// The residues of a column of machine words.
pub open spec fn residues(s: Seq<u64>) -> Seq<u64> {
    Seq::new(s.len(), |i: int| residue(s[i]))
}

/// Reduces a machine word to its residue.
pub fn canonical(v: u64) -> (r: u64)
    ensures
        r == residue(v),
        r < MODULUS,
        v < MODULUS ==> r == v,
{
    if v >= MODULUS {
        v - MODULUS
    } else {
        v
    }
}

/// Field addition.
pub fn field_add(a: u64, b: u64) -> (r: u64)
    ensures
        r == fadd(a as int, b as int),
        r < MODULUS,
{
    ((a as u128 + b as u128) % (MODULUS as u128)) as u64
}

/// Field subtraction.
pub fn field_sub(a: u64, b: u64) -> (r: u64)
    ensures
        r == fsub(a as int, b as int),
        r < MODULUS,
{
    let m: u128 = MODULUS as u128;
    let d: u128 = a as u128 + m + m - b as u128;
    proof {
        lemma_mod_multiples_vanish(2, a as int - b as int, MODULUS as int);
        assert(MODULUS as int * 2 + (a as int - b as int) == d as int);
    }
    (d % m) as u64
}

/// Field multiplication.
pub fn field_mul(a: u64, b: u64) -> (r: u64)
    ensures
        r == fmul(a as int, b as int),
        r < MODULUS,
{
    assert(a as u128 * b as u128 <= 0xFFFF_FFFF_FFFF_FFFFu64 * 0xFFFF_FFFF_FFFF_FFFFu64)
        by (nonlinear_arith)
        requires
            a <= 0xFFFF_FFFF_FFFF_FFFFu64,
            b <= 0xFFFF_FFFF_FFFF_FFFFu64,
    ;
    ((a as u128 * b as u128) % (MODULUS as u128)) as u64
}

/// A product vanishes exactly where a factor does.
pub proof fn zero_product(a: int, b: int)
    requires
        0 <= a < MODULUS,
        0 <= b < MODULUS,
    ensures
        fmul(a, b) == 0 <==> a == 0 || b == 0,
{
    if fmul(a, b) == 0 {
        prime::no_zero_divisors(a, b);
    }
    if a == 0 || b == 0 {
        assert(a * b == 0) by (nonlinear_arith)
            requires
                a == 0 || b == 0,
        ;
    }
}

/// A difference vanishes exactly where the operands agree.
pub proof fn zero_difference(a: int, b: int)
    requires
        0 <= a < MODULUS,
        0 <= b < MODULUS,
    ensures
        fsub(a, b) == 0 <==> a == b,
        0 <= fsub(a, b) < MODULUS,
{
    if a < b {
        lemma_mod_multiples_vanish(1, a - b, MODULUS as int);
    }
}

/// Adding to a reduced sum reduces the sum.
pub proof fn reduced_sum(x: int, y: int)
    ensures
        fadd(x % (MODULUS as int), y) == (x + y) % (MODULUS as int),
        fadd(x % (MODULUS as int), y % (MODULUS as int)) == (x + y) % (MODULUS as int),
{
    lemma_add_mod_noop(x, y, MODULUS as int);
    lemma_add_mod_noop(x % (MODULUS as int), y, MODULUS as int);
}

/// Multiplying reduced factors reduces the product.
pub proof fn reduced_product(x: int, y: int)
    ensures
        fmul(x % (MODULUS as int), y) == (x * y) % (MODULUS as int),
        fmul(x % (MODULUS as int), y % (MODULUS as int)) == (x * y) % (MODULUS as int),
{
    lemma_mul_mod_noop(x, y, MODULUS as int);
    lemma_mul_mod_noop(x % (MODULUS as int), y, MODULUS as int);
}

} // verus!
