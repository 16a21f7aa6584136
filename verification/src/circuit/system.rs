//! Constraint systems over the Goldilocks field: straight-line programs whose
//! gates define wires, and checks that tie wires together.
//!
//! The hash that the hash gates stand for is not fixed here. Specifications
//! take it as a function from field elements to four field elements, and
//! executable code takes it as a callable value.

use vstd::prelude::*;

use crate::field::canonical;
use crate::field::fadd;
use crate::field::field_add;
use crate::field::field_mul;
use crate::field::field_sub;
use crate::field::fmul;
use crate::field::fsub;
use crate::field::residue;
use crate::field::MODULUS;

verus! {

/// The index of a wire.
pub type Target = usize;

/// A hash from field elements to field elements.
pub type FieldHash = spec_fn(Seq<u64>) -> Seq<u64>;

/// No system grows beyond this many wires.
pub const MAX_WIRES: usize = 10_000_000;

/// One step of a constraint system.
pub enum Gate {
    /// The wire `out` holds a constant.
    Constant { out: Target, value: u64 },
    /// `out = a + b`.
    Add { a: Target, b: Target, out: Target },
    /// `out = a - b`.
    Sub { a: Target, b: Target, out: Target },
    /// `out = a * b`.
    Mul { a: Target, b: Target, out: Target },
    /// `out` is one where `a` and `b` agree, and zero where they do not.
    IsEqual { a: Target, b: Target, out: Target },
    /// The 64 wires from `first` on hold the binary digits of the canonical
    /// value of `x`, the lowest digit first.
    Bits { x: Target, first: Target },
    /// The four wires from `first` on hold the hash of the inputs.
    Hash { inputs: Vec<Target>, first: Target },
    /// `a` and `b` must agree.
    Connect { a: Target, b: Target },
    /// `x` must be below two to the power `bits`.
    RangeCheck { x: Target, bits: u64 },
}

/// `h` maps everything to four canonical field elements.
pub open spec fn is_field_hash(h: FieldHash) -> bool {
    forall|x: Seq<u64>|
        #![trigger h(x)]
        h(x).len() == 4 && (forall|k: int| 0 <= k < 4 ==> #[trigger] h(x)[k] < MODULUS)
}

/// The callable value takes every input.
pub open spec fn is_total<H: Fn(&Vec<u64>) -> [u64; 4]>(hash: H) -> bool {
    forall|x: &Vec<u64>| call_requires(hash, (x,))
}

/// The callable value computes `h`.
#[verifier::opaque]
pub open spec fn computes<H: Fn(&Vec<u64>) -> [u64; 4]>(hash: H, h: FieldHash) -> bool {
    &&& is_field_hash(h)
    &&& forall|x: &Vec<u64>, r: [u64; 4]| #[trigger] call_ensures(hash, (x,), r) ==> r@ == h(x@)
}

/// One for true and zero for false.
pub open spec fn bit(b: bool) -> u64 {
    if b {
        1
    } else {
        0
    }
}

/// The values on a list of wires.
pub open spec fn gather(w: Seq<u64>, ts: Seq<Target>) -> Seq<u64> {
    Seq::new(ts.len(), |i: int| w[ts[i] as int])
}

/// The 64 wires from `first` on hold the binary digits of `v`.
#[verifier::opaque]
pub open spec fn holds_bits(w: Seq<u64>, first: Target, v: u64) -> bool {
    forall|k: int| 0 <= k < 64 ==> #[trigger] w[first + k] == (v >> (k as u64)) & 1
}

/// The four wires from `first` on hold the elements of `d`.
pub open spec fn holds_digest(w: Seq<u64>, first: Target, d: Seq<u64>) -> bool {
    &&& w[first as int] == d[0]
    &&& w[first + 1] == d[1]
    &&& w[first + 2] == d[2]
    &&& w[first + 3] == d[3]
}

/// The wires that a gate defines hold what it says they hold.
pub open spec fn gate_defines(g: Gate, w: Seq<u64>, h: FieldHash) -> bool {
    match g {
        Gate::Constant { out, value } => w[out as int] == residue(value),
        Gate::Add { a, b, out } => w[out as int] == fadd(w[a as int] as int, w[b as int] as int),
        Gate::Sub { a, b, out } => w[out as int] == fsub(w[a as int] as int, w[b as int] as int),
        Gate::Mul { a, b, out } => w[out as int] == fmul(w[a as int] as int, w[b as int] as int),
        Gate::IsEqual { a, b, out } => w[out as int] == bit(w[a as int] == w[b as int]),
        Gate::Bits { x, first } => holds_bits(w, first, w[x as int]),
        Gate::Hash { inputs, first } => holds_digest(w, first, h(gather(w, inputs@))),
        Gate::Connect { .. } => true,
        Gate::RangeCheck { .. } => true,
    }
}

/// The condition that a gate imposes.
pub open spec fn gate_checks(g: Gate, w: Seq<u64>) -> bool {
    match g {
        Gate::Connect { a, b } => w[a as int] == w[b as int],
        Gate::RangeCheck { x, bits } => w[x as int] >> bits == 0,
        _ => true,
    }
}

/// The number of wires that a gate defines.
pub open spec fn gate_width(g: Gate) -> nat {
    match g {
        Gate::Connect { .. } => 0,
        Gate::RangeCheck { .. } => 0,
        Gate::Bits { .. } => 64,
        Gate::Hash { .. } => 4,
        _ => 1,
    }
}

/// A gate reads wires below `n` only, and defines those from `n` on.
pub open spec fn gate_fits(g: Gate, n: nat) -> bool {
    match g {
        Gate::Constant { out, .. } => out == n,
        Gate::Add { a, b, out } => a < n && b < n && out == n,
        Gate::Sub { a, b, out } => a < n && b < n && out == n,
        Gate::Mul { a, b, out } => a < n && b < n && out == n,
        Gate::IsEqual { a, b, out } => a < n && b < n && out == n,
        Gate::Bits { x, first } => x < n && first == n,
        Gate::Hash { inputs, first } => first == n && forall|i: int|
            0 <= i < inputs@.len() ==> #[trigger] inputs@[i] < n,
        Gate::Connect { a, b } => a < n && b < n,
        Gate::RangeCheck { x, bits } => x < n && bits < 64,
    }
}

/// The number of wires after the inputs and the given gates.
pub open spec fn width(n_inputs: nat, gates: Seq<Gate>) -> nat
    decreases gates.len(),
{
    if gates.len() == 0 {
        n_inputs
    } else {
        width(n_inputs, gates.drop_last()) + gate_width(gates.last())
    }
}

/// A gate's meaning depends on the wires that it reads and defines alone.
proof fn gate_defines_local(g: Gate, n: nat, w: Seq<u64>, v: Seq<u64>, h: FieldHash)
    requires
        gate_fits(g, n),
        n + gate_width(g) <= w.len(),
        forall|j: int| 0 <= j < n + gate_width(g) ==> v[j] == w[j],
    ensures
        gate_defines(g, w, h) == gate_defines(g, v, h),
        gate_checks(g, w) == gate_checks(g, v),
{
    match g {
        Gate::Hash { inputs, first } => {
            assert(gather(w, inputs@) =~= gather(v, inputs@));
        },
        Gate::Bits { x, first } => {
            reveal(holds_bits);
            assert forall|k: int| 0 <= k < 64 implies v[first + k] == #[trigger] w[first + k] by {}
            assert forall|k: int| 0 <= k < 64 implies w[first + k] == #[trigger] v[first + k] by {}
        },
        _ => {},
    }
}

/// The first `i` gates define their wires.
#[verifier::opaque]
spec fn defined_up_to(gates: Seq<Gate>, i: int, w: Seq<u64>, h: FieldHash) -> bool {
    forall|k: int| 0 <= k < i ==> gate_defines(#[trigger] gates[k], w, h)
}

/// Appending the wires of the next gate keeps the earlier gates' wires.
proof fn defined_step(n: nat, gates: Seq<Gate>, i: int, w: Seq<u64>, v: Seq<u64>, h: FieldHash)
    requires
        0 <= i < gates.len(),
        forall|k: int| 0 <= k < i ==> gate_fits(#[trigger] gates[k], width(n, gates.take(k))),
        w.len() == width(n, gates.take(i)),
        forall|k: int| 0 <= k < w.len() ==> v[k] == w[k],
        defined_up_to(gates, i, w, h),
        gate_defines(gates[i], v, h),
    ensures
        defined_up_to(gates, i + 1, v, h),
{
    reveal(defined_up_to);
    assert forall|k: int| 0 <= k < i + 1 implies gate_defines(#[trigger] gates[k], v, h) by {
        if k < i {
            width_monotone(n, gates, k, i);
            gate_defines_local(gates[k], width(n, gates.take(k)), w, v, h);
        }
    }
}

/// A constraint system. Its first wires are the inputs.
pub struct ConstraintSystem {
    pub n_inputs: usize,
    pub n_wires: usize,
    pub gates: Vec<Gate>,
    pub public_inputs: Vec<Target>,
}

impl ConstraintSystem {
    /// Gates define the wires in order, and nothing refers to a wire that does
    /// not exist.
    #[verifier::opaque]
    pub open spec fn wf(self) -> bool {
        &&& self.n_inputs <= self.n_wires
        &&& self.n_wires == width(self.n_inputs as nat, self.gates@)
        &&& forall|i: int|
            0 <= i < self.gates@.len() ==> gate_fits(
                #[trigger] self.gates@[i],
                width(self.n_inputs as nat, self.gates@.take(i)),
            )
        &&& forall|i: int|
            0 <= i < self.public_inputs@.len() ==> #[trigger] self.public_inputs@[i] < self.n_wires
    }

    /// `w` assigns a canonical value to each wire, and the wires of each gate
    /// hold what it defines.
    #[verifier::opaque]
    pub open spec fn runs(self, w: Seq<u64>, h: FieldHash) -> bool {
        &&& self.n_wires <= w.len()
        &&& forall|j: int| 0 <= j < w.len() ==> #[trigger] w[j] < MODULUS
        &&& forall|i: int|
            0 <= i < self.gates@.len() ==> gate_defines(#[trigger] self.gates@[i], w, h)
    }

    /// `w` meets every check.
    #[verifier::opaque]
    pub open spec fn passes(self, w: Seq<u64>) -> bool {
        forall|i: int| 0 <= i < self.gates@.len() ==> gate_checks(#[trigger] self.gates@[i], w)
    }

    /// `w` satisfies the system.
    pub open spec fn satisfied(self, w: Seq<u64>, h: FieldHash) -> bool {
        self.runs(w, h) && self.passes(w)
    }

    /// The public inputs that an assignment exposes.
    pub open spec fn public_values(self, w: Seq<u64>) -> Seq<u64> {
        gather(w, self.public_inputs@)
    }

    /// A system with the given number of inputs and no gate.
    pub fn new(n_inputs: usize) -> (r: ConstraintSystem)
        requires
            n_inputs <= MAX_WIRES,
        ensures
            r.wf(),
            r.n_inputs == n_inputs,
            r.n_wires == n_inputs,
            r.gates@.len() == 0,
            r.public_inputs@.len() == 0,
            forall|w: Seq<u64>, h: FieldHash| #[trigger]
                r.runs(w, h) <==> n_inputs <= w.len() && forall|j: int|
                    0 <= j < w.len() ==> #[trigger] w[j] < MODULUS,
            forall|w: Seq<u64>| #[trigger] r.passes(w),
    {
        reveal(ConstraintSystem::wf);
        reveal(ConstraintSystem::runs);
        reveal(ConstraintSystem::passes);
        ConstraintSystem { n_inputs, n_wires: n_inputs, gates: Vec::new(), public_inputs: Vec::new() }
    }

    /// Appends a gate.
    fn push(&mut self, g: Gate)
        requires
            old(self).wf(),
            old(self).n_wires + gate_width(g) <= MAX_WIRES + 64,
            gate_fits(g, old(self).n_wires as nat),
        ensures
            final(self).wf(),
            final(self).n_inputs == old(self).n_inputs,
            final(self).n_wires == old(self).n_wires + gate_width(g),
            final(self).gates@ == old(self).gates@.push(g),
            final(self).public_inputs@ == old(self).public_inputs@,
            forall|w: Seq<u64>, h: FieldHash| #[trigger]
                final(self).runs(w, h) <==> old(self).runs(w, h) && gate_defines(g, w, h)
                    && final(self).n_wires <= w.len(),
            forall|w: Seq<u64>| #[trigger]
                final(self).passes(w) <==> old(self).passes(w) && gate_checks(g, w),
    {
        let step: usize = match &g {
            Gate::Connect { .. } => 0,
            Gate::RangeCheck { .. } => 0,
            Gate::Bits { .. } => 64,
            Gate::Hash { .. } => 4,
            _ => 1,
        };
        reveal(ConstraintSystem::wf);
        let ghost before = self.gates@;
        self.gates.push(g);
        self.n_wires = self.n_wires + step;
        proof {
            reveal(ConstraintSystem::runs);
            reveal(ConstraintSystem::passes);
            assert(self.gates@.drop_last() =~= before);
            assert forall|i: int| 0 <= i < self.gates@.len() implies gate_fits(
                #[trigger] self.gates@[i],
                width(self.n_inputs as nat, self.gates@.take(i)),
            ) by {
                if i < before.len() {
                    assert(self.gates@.take(i) =~= before.take(i));
                    assert(self.gates@[i] == before[i]);
                } else {
                    assert(self.gates@.take(i) =~= before);
                }
            }
            assert forall|w: Seq<u64>, h: FieldHash| #[trigger] self.runs(w, h) <==> old(self).runs(
                w,
                h,
            ) && gate_defines(g, w, h) && self.n_wires <= w.len() by {
                if old(self).runs(w, h) && gate_defines(g, w, h) && self.n_wires <= w.len() {
                    assert forall|i: int| 0 <= i < self.gates@.len() implies gate_defines(
                        #[trigger] self.gates@[i],
                        w,
                        h,
                    ) by {
                        if i < before.len() {
                            assert(self.gates@[i] == before[i]);
                        }
                    }
                }
                if self.runs(w, h) {
                    assert(self.gates@[before.len() as int] == g);
                    assert forall|i: int| 0 <= i < before.len() implies gate_defines(
                        #[trigger] before[i],
                        w,
                        h,
                    ) by {
                        assert(self.gates@[i] == before[i]);
                    }
                }
            }
            assert forall|w: Seq<u64>| #[trigger] self.passes(w) <==> old(self).passes(w)
                && gate_checks(g, w) by {
                if old(self).passes(w) && gate_checks(g, w) {
                    assert forall|i: int| 0 <= i < self.gates@.len() implies gate_checks(
                        #[trigger] self.gates@[i],
                        w,
                    ) by {
                        if i < before.len() {
                            assert(self.gates@[i] == before[i]);
                        }
                    }
                }
                if self.passes(w) {
                    assert(self.gates@[before.len() as int] == g);
                    assert forall|i: int| 0 <= i < before.len() implies gate_checks(
                        #[trigger] before[i],
                        w,
                    ) by {
                        assert(self.gates@[i] == before[i]);
                    }
                }
            }
        }
    }

    /// `self` is `before` with `k` more wires, and the same inputs and public
    /// inputs.
    pub open spec fn grows(self, before: ConstraintSystem, k: nat) -> bool {
        &&& self.wf()
        &&& self.n_inputs == before.n_inputs
        &&& self.n_wires == before.n_wires + k
        &&& self.public_inputs@ == before.public_inputs@
    }

    /// Adds a wire that holds a constant.
    pub fn constant(&mut self, value: u64) -> (out: Target)
        requires
            old(self).wf(),
            old(self).n_wires <= MAX_WIRES,
        ensures
            final(self).grows(*old(self), 1),
            out == old(self).n_wires,
            forall|w: Seq<u64>, h: FieldHash| #[trigger]
                final(self).runs(w, h) ==> old(self).runs(w, h) && w[out as int] == residue(value),
            forall|w: Seq<u64>| #[trigger] final(self).passes(w) <==> old(self).passes(w),
    {
        let out: Target = self.n_wires;
        self.push(Gate::Constant { out, value });
        out
    }

    /// Adds a wire that holds a sum.
    pub fn add(&mut self, a: Target, b: Target) -> (out: Target)
        requires
            old(self).wf(),
            old(self).n_wires <= MAX_WIRES,
            a < old(self).n_wires,
            b < old(self).n_wires,
        ensures
            final(self).grows(*old(self), 1),
            out == old(self).n_wires,
            forall|w: Seq<u64>, h: FieldHash| #[trigger]
                final(self).runs(w, h) ==> old(self).runs(w, h) && w[out as int] == fadd(
                    w[a as int] as int,
                    w[b as int] as int,
                ),
            forall|w: Seq<u64>| #[trigger] final(self).passes(w) <==> old(self).passes(w),
    {
        let out: Target = self.n_wires;
        self.push(Gate::Add { a, b, out });
        out
    }

    /// Adds a wire that holds a difference.
    pub fn sub(&mut self, a: Target, b: Target) -> (out: Target)
        requires
            old(self).wf(),
            old(self).n_wires <= MAX_WIRES,
            a < old(self).n_wires,
            b < old(self).n_wires,
        ensures
            final(self).grows(*old(self), 1),
            out == old(self).n_wires,
            forall|w: Seq<u64>, h: FieldHash| #[trigger]
                final(self).runs(w, h) ==> old(self).runs(w, h) && w[out as int] == fsub(
                    w[a as int] as int,
                    w[b as int] as int,
                ),
            forall|w: Seq<u64>| #[trigger] final(self).passes(w) <==> old(self).passes(w),
    {
        let out: Target = self.n_wires;
        self.push(Gate::Sub { a, b, out });
        out
    }

    /// Adds a wire that holds a product.
    pub fn mul(&mut self, a: Target, b: Target) -> (out: Target)
        requires
            old(self).wf(),
            old(self).n_wires <= MAX_WIRES,
            a < old(self).n_wires,
            b < old(self).n_wires,
        ensures
            final(self).grows(*old(self), 1),
            out == old(self).n_wires,
            forall|w: Seq<u64>, h: FieldHash| #[trigger]
                final(self).runs(w, h) ==> old(self).runs(w, h) && w[out as int] == fmul(
                    w[a as int] as int,
                    w[b as int] as int,
                ),
            forall|w: Seq<u64>| #[trigger] final(self).passes(w) <==> old(self).passes(w),
    {
        let out: Target = self.n_wires;
        self.push(Gate::Mul { a, b, out });
        out
    }

    /// Adds a wire that says whether two wires agree.
    pub fn is_equal(&mut self, a: Target, b: Target) -> (out: Target)
        requires
            old(self).wf(),
            old(self).n_wires <= MAX_WIRES,
            a < old(self).n_wires,
            b < old(self).n_wires,
        ensures
            final(self).grows(*old(self), 1),
            out == old(self).n_wires,
            forall|w: Seq<u64>, h: FieldHash| #[trigger]
                final(self).runs(w, h) ==> old(self).runs(w, h) && w[out as int] == bit(
                    w[a as int] == w[b as int],
                ),
            forall|w: Seq<u64>| #[trigger] final(self).passes(w) <==> old(self).passes(w),
    {
        let out: Target = self.n_wires;
        self.push(Gate::IsEqual { a, b, out });
        out
    }

    /// Adds the 64 binary digits of a wire, and returns the first of them.
    pub fn bits(&mut self, x: Target) -> (first: Target)
        requires
            old(self).wf(),
            old(self).n_wires <= MAX_WIRES,
            x < old(self).n_wires,
        ensures
            final(self).grows(*old(self), 64),
            first == old(self).n_wires,
            forall|w: Seq<u64>, h: FieldHash| #[trigger]
                final(self).runs(w, h) ==> old(self).runs(w, h) && holds_bits(
                    w,
                    first,
                    w[x as int],
                ),
            forall|w: Seq<u64>| #[trigger] final(self).passes(w) <==> old(self).passes(w),
    {
        let first: Target = self.n_wires;
        self.push(Gate::Bits { x, first });
        first
    }

    /// Adds the four elements of a hash, and returns the first of them.
    pub fn hash(&mut self, inputs: Vec<Target>) -> (first: Target)
        requires
            old(self).wf(),
            old(self).n_wires <= MAX_WIRES,
            forall|i: int| 0 <= i < inputs@.len() ==> #[trigger] inputs@[i] < old(self).n_wires,
        ensures
            final(self).grows(*old(self), 4),
            first == old(self).n_wires,
            forall|w: Seq<u64>, h: FieldHash| #[trigger]
                final(self).runs(w, h) ==> old(self).runs(w, h) && holds_digest(
                    w,
                    first,
                    h(gather(w, inputs@)),
                ),
            forall|w: Seq<u64>| #[trigger] final(self).passes(w) <==> old(self).passes(w),
    {
        let first: Target = self.n_wires;
        self.push(Gate::Hash { inputs, first });
        first
    }

    /// Requires two wires to agree.
    pub fn connect(&mut self, a: Target, b: Target)
        requires
            old(self).wf(),
            old(self).n_wires <= MAX_WIRES,
            a < old(self).n_wires,
            b < old(self).n_wires,
        ensures
            final(self).grows(*old(self), 0),
            forall|w: Seq<u64>, h: FieldHash| #[trigger]
                final(self).runs(w, h) ==> old(self).runs(w, h),
            forall|w: Seq<u64>| #[trigger]
                final(self).passes(w) <==> old(self).passes(w) && w[a as int] == w[b as int],
    {
        self.push(Gate::Connect { a, b });
    }

    /// Requires a wire to be below two to the power `bits`.
    pub fn range_check(&mut self, x: Target, bits: u64)
        requires
            old(self).wf(),
            old(self).n_wires <= MAX_WIRES,
            x < old(self).n_wires,
            bits < 64,
        ensures
            final(self).grows(*old(self), 0),
            forall|w: Seq<u64>, h: FieldHash| #[trigger]
                final(self).runs(w, h) ==> old(self).runs(w, h),
            forall|w: Seq<u64>| #[trigger]
                final(self).passes(w) <==> old(self).passes(w) && w[x as int] >> bits == 0,
    {
        self.push(Gate::RangeCheck { x, bits });
    }

    /// Exposes a wire as the next public input.
    pub fn register_public_input(&mut self, t: Target)
        requires
            old(self).wf(),
            t < old(self).n_wires,
        ensures
            final(self).wf(),
            final(self).n_inputs == old(self).n_inputs,
            final(self).n_wires == old(self).n_wires,
            final(self).public_inputs@ == old(self).public_inputs@.push(t),
            forall|w: Seq<u64>, h: FieldHash| #[trigger]
                final(self).runs(w, h) <==> old(self).runs(w, h),
            forall|w: Seq<u64>| #[trigger] final(self).passes(w) <==> old(self).passes(w),
    {
        reveal(ConstraintSystem::wf);
        self.public_inputs.push(t);
        assert forall|w: Seq<u64>, h: FieldHash| #[trigger] self.runs(w, h) <==> old(self).runs(
            w,
            h,
        ) by {
            reveal(ConstraintSystem::runs);
            assert(self.gates@ == old(self).gates@);
        }
        assert forall|w: Seq<u64>| #[trigger] self.passes(w) <==> old(self).passes(w) by {
            reveal(ConstraintSystem::passes);
            assert(self.gates@ == old(self).gates@);
        }
    }

    /// In a running assignment every wire is canonical.
    pub proof fn runs_canonical(self, w: Seq<u64>, h: FieldHash)
        requires
            self.runs(w, h),
        ensures
            self.n_wires <= w.len(),
            forall|j: int| 0 <= j < w.len() ==> #[trigger] w[j] < MODULUS,
    {
        reveal(ConstraintSystem::runs);
    }

    /// The inputs are wires.
    pub proof fn inputs_exist(self)
        requires
            self.wf(),
        ensures
            self.n_inputs <= self.n_wires,
    {
        reveal(ConstraintSystem::wf);
    }

    /// Computes the assignment that the inputs determine.
    pub fn assign<H: Fn(&Vec<u64>) -> [u64; 4]>(&self, inputs: &Vec<u64>, hash: &H) -> (w: Vec<u64>)
        requires
            self.wf(),
            inputs@.len() == self.n_inputs,
            is_total(*hash),
        ensures
            w@.len() == self.n_wires,
            forall|j: int| 0 <= j < self.n_inputs ==> #[trigger] w@[j] == residue(inputs@[j]),
            forall|h: FieldHash| computes(*hash, h) ==> #[trigger] self.runs(w@, h),
    {
        reveal(ConstraintSystem::wf);
        let mut w: Vec<u64> = Vec::new();
        let mut j: usize = 0;
        while j < self.n_inputs
            invariant
                inputs@.len() == self.n_inputs,
                j <= self.n_inputs,
                w@.len() == j,
                forall|k: int| 0 <= k < j ==> #[trigger] w@[k] == residue(inputs@[k]),
                forall|k: int| 0 <= k < j ==> #[trigger] w@[k] < MODULUS,
            decreases self.n_inputs - j,
        {
            w.push(canonical(inputs[j]));
            j = j + 1;
        }
        let mut i: usize = 0;
        proof {
            assert(self.gates@.take(0) =~= Seq::<Gate>::empty());
            reveal(defined_up_to);
        }
        while i < self.gates.len()
            invariant
                self.wf(),
                is_total(*hash),
                inputs@.len() == self.n_inputs,
                i <= self.gates@.len(),
                self.n_inputs <= w@.len(),
                w@.len() == width(self.n_inputs as nat, self.gates@.take(i as int)),
                forall|k: int| 0 <= k < w@.len() ==> #[trigger] w@[k] < MODULUS,
                forall|k: int| 0 <= k < self.n_inputs ==> #[trigger] w@[k] == residue(inputs@[k]),
                forall|h: FieldHash|
                    computes(*hash, h) ==> #[trigger] defined_up_to(self.gates@, i as int, w@, h),
            decreases self.gates@.len() - i,
        {
            let ghost before = w@;
            let ghost n = w@.len();
            proof {
                reveal(ConstraintSystem::wf);
                assert(self.gates@.take(i + 1).drop_last() =~= self.gates@.take(i as int));
                assert(self.gates@.take(i + 1).last() == self.gates@[i as int]);
                assert(gate_fits(self.gates@[i as int], n));
            }
            eval_gate(&self.gates[i], &mut w, hash);
            proof {
                assert forall|h: FieldHash| computes(*hash, h) implies #[trigger] defined_up_to(
                    self.gates@,
                    i + 1,
                    w@,
                    h,
                ) by {
                    assert(defined_up_to(self.gates@, i as int, before, h));
                    assert(gate_defines(self.gates@[i as int], w@, h));
                    defined_step(self.n_inputs as nat, self.gates@, i as int, before, w@, h);
                }
            }
            i = i + 1;
        }
        proof {
            assert(self.gates@.take(self.gates@.len() as int) =~= self.gates@);
            assert forall|h: FieldHash| computes(*hash, h) implies #[trigger] self.runs(w@, h) by {
                assert(defined_up_to(self.gates@, self.gates@.len() as int, w@, h));
                reveal(ConstraintSystem::runs);
                reveal(defined_up_to);
            }
        }
        w
    }

    /// Tests whether an assignment meets every check.
    pub fn check_passes(&self, w: &Vec<u64>) -> (r: bool)
        requires
            self.wf(),
            self.n_wires <= w@.len(),
        ensures
            r == self.passes(w@),
    {
        let mut i: usize = 0;
        while i < self.gates.len()
            invariant
                self.wf(),
                self.n_wires <= w@.len(),
                i <= self.gates@.len(),
                forall|k: int| 0 <= k < i ==> gate_checks(#[trigger] self.gates@[k], w@),
            decreases self.gates@.len() - i,
        {
            proof {
                self.gate_in_range(i as int);
            }
            let ok: bool = check_condition(&self.gates[i], w);
            if !ok {
                assert(!self.passes(w@)) by {
                    reveal(ConstraintSystem::passes);
                }
                return false;
            }
            i = i + 1;
        }
        assert(self.passes(w@)) by {
            reveal(ConstraintSystem::passes);
        }
        true
    }

    /// The wires of a gate exist.
    proof fn gate_in_range(self, i: int)
        requires
            self.wf(),
            0 <= i < self.gates@.len(),
        ensures
            gate_fits(self.gates@[i], width(self.n_inputs as nat, self.gates@.take(i))),
            width(self.n_inputs as nat, self.gates@.take(i)) + gate_width(self.gates@[i])
                <= self.n_wires,
    {
        reveal(ConstraintSystem::wf);
        width_monotone(self.n_inputs as nat, self.gates@, i, self.gates@.len() as int);
        assert(self.gates@.take(self.gates@.len() as int) =~= self.gates@);
    }

    /// Tests whether an assignment satisfies the system.
    pub fn check<H: Fn(&Vec<u64>) -> [u64; 4]>(&self, w: &Vec<u64>, hash: &H) -> (r: bool)
        requires
            self.wf(),
            is_total(*hash),
        ensures
            forall|h: FieldHash| computes(*hash, h) ==> r == #[trigger] self.satisfied(w@, h),
    {
        if w.len() < self.n_wires || !all_canonical(w) {
            assert forall|h: FieldHash| !self.runs(w@, h) by {
                reveal(ConstraintSystem::runs);
            }
            return false;
        }
        let mut i: usize = 0;
        proof {
            assert forall|h: FieldHash| defined_up_to(self.gates@, 0, w@, h) by {
                reveal(defined_up_to);
            }
        }
        while i < self.gates.len()
            invariant
                self.wf(),
                is_total(*hash),
                self.n_wires <= w@.len(),
                i <= self.gates@.len(),
                forall|h: FieldHash|
                    computes(*hash, h) ==> #[trigger] defined_up_to(self.gates@, i as int, w@, h),
            decreases self.gates@.len() - i,
        {
            proof {
                self.gate_in_range(i as int);
            }
            let ok: bool = check_gate(&self.gates[i], w, hash);
            if !ok {
                assert forall|h: FieldHash| computes(*hash, h) implies !(#[trigger] self.satisfied(
                    w@,
                    h,
                )) by {
                    reveal(ConstraintSystem::runs);
                    assert(!gate_defines(self.gates@[i as int], w@, h));
                }
                return false;
            }
            proof {
                assert forall|h: FieldHash| computes(*hash, h) implies #[trigger] defined_up_to(
                    self.gates@,
                    i + 1,
                    w@,
                    h,
                ) by {
                    assert(defined_up_to(self.gates@, i as int, w@, h));
                    assert(gate_defines(self.gates@[i as int], w@, h));
                    reveal(defined_up_to);
                }
            }
            i = i + 1;
        }
        let r: bool = self.check_passes(w);
        assert forall|h: FieldHash| computes(*hash, h) implies r == #[trigger] self.satisfied(
            w@,
            h,
        ) by {
            assert(defined_up_to(self.gates@, self.gates@.len() as int, w@, h));
            reveal(defined_up_to);
            reveal(ConstraintSystem::runs);
        }
        r
    }

    /// Reads the public inputs off an assignment.
    pub fn read_public_inputs(&self, w: &Vec<u64>) -> (r: Vec<u64>)
        requires
            self.wf(),
            self.n_wires <= w@.len(),
        ensures
            r@ == self.public_values(w@),
    {
        reveal(ConstraintSystem::wf);
        read_wires(w, &self.public_inputs)
    }
}

/// Tests whether every word is a canonical field element.
fn all_canonical(w: &Vec<u64>) -> (r: bool)
    ensures
        r == (forall|j: int| 0 <= j < w@.len() ==> #[trigger] w@[j] < MODULUS),
{
    let mut i: usize = 0;
    while i < w.len()
        invariant
            i <= w@.len(),
            forall|j: int| 0 <= j < i ==> #[trigger] w@[j] < MODULUS,
        decreases w@.len() - i,
    {
        if w[i] >= MODULUS {
            assert(w@[i as int] >= MODULUS);
            return false;
        }
        i = i + 1;
    }
    true
}

/// Tests the condition that a gate imposes.
fn check_condition(g: &Gate, w: &Vec<u64>) -> (r: bool)
    requires
        exists|n: nat| #[trigger] gate_fits(*g, n) && n + gate_width(*g) <= w@.len(),
    ensures
        r == gate_checks(*g, w@),
{
    match g {
        Gate::Connect { a, b } => w[*a] == w[*b],
        Gate::RangeCheck { x, bits } => w[*x] >> *bits == 0,
        _ => true,
    }
}

/// Tests whether the wires that a gate defines hold what it says.
fn check_gate<H: Fn(&Vec<u64>) -> [u64; 4]>(g: &Gate, w: &Vec<u64>, hash: &H) -> (r: bool)
    requires
        is_total(*hash),
        exists|n: nat| #[trigger] gate_fits(*g, n) && n + gate_width(*g) <= w@.len(),
    ensures
        forall|h: FieldHash| computes(*hash, h) ==> r == #[trigger] gate_defines(*g, w@, h),
{
    let ghost n = choose|n: nat| #[trigger] gate_fits(*g, n) && n + gate_width(*g) <= w@.len();
    let len: usize = w.len();
    match g {
        Gate::Constant { out, value } => w[*out] == canonical(*value),
        Gate::Add { a, b, out } => w[*out] == field_add(w[*a], w[*b]),
        Gate::Sub { a, b, out } => w[*out] == field_sub(w[*a], w[*b]),
        Gate::Mul { a, b, out } => w[*out] == field_mul(w[*a], w[*b]),
        Gate::IsEqual { a, b, out } => if w[*a] == w[*b] {
            w[*out] == 1
        } else {
            w[*out] == 0
        },
        Gate::Bits { x, first } => check_bits(w, *first, w[*x]),
        Gate::Hash { inputs: ts, first } => {
            let x: Vec<u64> = read_wires(w, ts);
            let d: [u64; 4] = hash(&x);
            let r: bool = w[*first] == d[0] && w[*first + 1] == d[1] && w[*first + 2] == d[2]
                && w[*first + 3] == d[3];
            assert forall|h: FieldHash| computes(*hash, h) implies r == #[trigger] gate_defines(
                *g,
                w@,
                h,
            ) by {
                reveal(computes);
                assert(d@ == h(x@));
            }
            r
        },
        Gate::Connect { a, b } => true,
        Gate::RangeCheck { x, bits } => true,
    }
}

/// Tests whether the 64 wires from `first` on hold the binary digits of `v`.
fn check_bits(w: &Vec<u64>, first: usize, v: u64) -> (r: bool)
    requires
        first + 64 <= w@.len(),
    ensures
        r == holds_bits(w@, first, v),
{
    let len: usize = w.len();
    let mut k: u64 = 0;
    while k < 64
        invariant
            k <= 64,
            len == w@.len(),
            first + 64 <= len,
            forall|i: int| 0 <= i < k ==> #[trigger] w@[first + i] == (v >> (i as u64)) & 1,
        decreases 64 - k,
    {
        if w[first + k as usize] != (v >> k) & 1 {
            assert(w@[first + k as int] != (v >> k) & 1);
            assert(!holds_bits(w@, first, v)) by {
                reveal(holds_bits);
            }
            return false;
        }
        k = k + 1;
    }
    proof {
        reveal(holds_bits);
    }
    true
}

/// Appends the wires that a gate defines.
fn eval_gate<H: Fn(&Vec<u64>) -> [u64; 4]>(g: &Gate, w: &mut Vec<u64>, hash: &H)
    requires
        is_total(*hash),
        gate_fits(*g, old(w)@.len()),
        forall|k: int| 0 <= k < old(w)@.len() ==> #[trigger] old(w)@[k] < MODULUS,
    ensures
        final(w)@.len() == old(w)@.len() + gate_width(*g),
        forall|k: int| 0 <= k < old(w)@.len() ==> #[trigger] final(w)@[k] == old(w)@[k],
        forall|k: int| 0 <= k < final(w)@.len() ==> #[trigger] final(w)@[k] < MODULUS,
        forall|h: FieldHash| computes(*hash, h) ==> #[trigger] gate_defines(*g, final(w)@, h),
{
    match g {
        Gate::Constant { out, value } => {
            w.push(canonical(*value));
        },
        Gate::Add { a, b, out } => {
            let v: u64 = field_add(w[*a], w[*b]);
            w.push(v);
        },
        Gate::Sub { a, b, out } => {
            let v: u64 = field_sub(w[*a], w[*b]);
            w.push(v);
        },
        Gate::Mul { a, b, out } => {
            let v: u64 = field_mul(w[*a], w[*b]);
            w.push(v);
        },
        Gate::IsEqual { a, b, out } => {
            let v: u64 = if w[*a] == w[*b] {
                1
            } else {
                0
            };
            w.push(v);
        },
        Gate::Bits { x, first } => {
            let v: u64 = w[*x];
            push_bits(w, v);
        },
        Gate::Hash { inputs: ts, first } => {
            let x: Vec<u64> = read_wires(w, ts);
            let r: [u64; 4] = hash(&x);
            w.push(canonical(r[0]));
            w.push(canonical(r[1]));
            w.push(canonical(r[2]));
            w.push(canonical(r[3]));
            assert forall|h: FieldHash| computes(*hash, h) implies #[trigger] gate_defines(
                *g,
                w@,
                h,
            ) by {
                assert(gather(w@, ts@) =~= x@);
                reveal(computes);
                assert(r@ == h(x@));
                assert(h(x@)[0] < MODULUS && h(x@)[1] < MODULUS && h(x@)[2] < MODULUS && h(x@)[3]
                    < MODULUS);
            }
        },
        Gate::Connect { a, b } => {},
        Gate::RangeCheck { x, bits } => {},
    }
}

/// Reads a list of wires.
fn read_wires(w: &Vec<u64>, ts: &Vec<Target>) -> (r: Vec<u64>)
    requires
        forall|i: int| 0 <= i < ts@.len() ==> #[trigger] ts@[i] < w@.len(),
    ensures
        r@ == gather(w@, ts@),
{
    let mut r: Vec<u64> = Vec::new();
    let mut i: usize = 0;
    while i < ts.len()
        invariant
            i <= ts@.len(),
            r@.len() == i,
            forall|k: int| 0 <= k < ts@.len() ==> #[trigger] ts@[k] < w@.len(),
            forall|k: int| 0 <= k < i ==> #[trigger] r@[k] == w@[ts@[k] as int],
        decreases ts@.len() - i,
    {
        r.push(w[ts[i]]);
        i = i + 1;
    }
    assert(r@ =~= gather(w@, ts@));
    r
}

/// Appends the 64 binary digits of a word, the lowest first.
fn push_bits(w: &mut Vec<u64>, v: u64)
    ensures
        final(w)@.len() == old(w)@.len() + 64,
        forall|j: int| 0 <= j < old(w)@.len() ==> #[trigger] final(w)@[j] == old(w)@[j],
        holds_bits(final(w)@, old(w)@.len() as usize, v),
        forall|k: int| old(w)@.len() <= k < final(w)@.len() ==> #[trigger] final(w)@[k] < MODULUS,
{
    let ghost n = w.len();
    let mut k: u64 = 0;
    while k < 64
        invariant
            k <= 64,
            n == old(w)@.len(),
            w@.len() == n + k,
            forall|j: int| 0 <= j < n ==> #[trigger] w@[j] == old(w)@[j],
            forall|i: int| 0 <= i < k ==> #[trigger] w@[n + i] == (v >> (i as u64)) & 1,
            forall|j: int| n <= j < w@.len() ==> #[trigger] w@[j] < MODULUS,
        decreases 64 - k,
    {
        let d: u64 = (v >> k) & 1;
        assert((v >> k) & 1 < 2) by (bit_vector);
        w.push(d);
        k = k + 1;
    }
    proof {
        reveal(holds_bits);
    }
}

/// More gates define more wires.
proof fn width_monotone(n: nat, gates: Seq<Gate>, k: int, i: int)
    requires
        0 <= k < i <= gates.len(),
    ensures
        width(n, gates.take(k)) + gate_width(gates[k]) <= width(n, gates.take(i)),
    decreases i,
{
    assert(gates.take(i).drop_last() =~= gates.take(i - 1));
    assert(gates.take(i).last() == gates[i - 1]);
    if k < i - 1 {
        width_monotone(n, gates, k, i - 1);
    }
}

} // verus!
