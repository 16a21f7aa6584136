//! Filling the inputs of a circuit.

use vstd::prelude::*;

use crate::circuit::gadgets::column;
use crate::circuit::system::computes;
use crate::circuit::system::is_total;
use crate::circuit::system::ConstraintSystem;
use crate::circuit::system::FieldHash;
use crate::circuit::system::Target;
use crate::commitment::poseidon::padded;
use crate::commitment::poseidon::MAX_ROWS;
use crate::field::residue;
use crate::field::residues;

verus! {

/// A value for each wire of a circuit, and the public inputs among them.
#[derive(Debug)]
pub struct CircuitWitness {
    pub wires: Vec<u64>,
    pub public_inputs: Vec<u64>,
}

/// `values` cut or padded to `MAX_ROWS`, with the zeros at the end.
pub open spec fn front(values: Seq<u64>) -> Seq<u64> {
    Seq::new(
        MAX_ROWS as nat,
        |i: int|
            if i < values.len() {
                values[i]
            } else {
                0
            },
    )
}

/// `values` after `n_pad` zeros, cut or padded to `MAX_ROWS`.
pub open spec fn back(values: Seq<u64>, n_pad: int) -> Seq<u64> {
    Seq::new(
        MAX_ROWS as nat,
        |i: int|
            if n_pad <= i < n_pad + values.len() {
                values[i - n_pad]
            } else {
                0
            },
    )
}

/// The number of rows among `len` that a circuit takes.
pub open spec fn rows_used(len: nat) -> int {
    if len < MAX_ROWS {
        len as int
    } else {
        MAX_ROWS as int
    }
}

/// Appends `values` cut or padded to `MAX_ROWS`, with the zeros at the end.
pub fn push_front(out: &mut Vec<u64>, values: &[u64])
    ensures
        final(out)@ == old(out)@ + front(values@),
{
    let ghost before = out@;
    let mut i: usize = 0;
    while i < MAX_ROWS
        invariant
            i <= MAX_ROWS,
            before == old(out)@,
            out@ =~= before + front(values@).take(i as int),
        decreases MAX_ROWS - i,
    {
        let v: u64 = if i < values.len() {
            values[i]
        } else {
            0
        };
        out.push(v);
        i = i + 1;
    }
    assert(front(values@).take(MAX_ROWS as int) =~= front(values@));
}

/// Appends `values` after `n_pad` zeros, cut or padded to `MAX_ROWS`.
pub fn push_back(out: &mut Vec<u64>, values: &[u64], n_pad: usize)
    ensures
        final(out)@ == old(out)@ + back(values@, n_pad as int),
{
    let ghost before = out@;
    let mut i: usize = 0;
    while i < MAX_ROWS
        invariant
            i <= MAX_ROWS,
            before == old(out)@,
            out@ =~= before + back(values@, n_pad as int).take(i as int),
        decreases MAX_ROWS - i,
    {
        let v: u64 = if i >= n_pad && i - n_pad < values.len() {
            values[i - n_pad]
        } else {
            0
        };
        out.push(v);
        i = i + 1;
    }
    assert(back(values@, n_pad as int).take(MAX_ROWS as int) =~= back(values@, n_pad as int));
}

/// Appends `n` words.
pub fn push_all(out: &mut Vec<u64>, values: &Vec<u64>)
    ensures
        final(out)@ == old(out)@ + values@,
{
    let ghost before = out@;
    let mut i: usize = 0;
    while i < values.len()
        invariant
            i <= values@.len(),
            before == old(out)@,
            out@ =~= before + values@.take(i as int),
        decreases values@.len() - i,
    {
        out.push(values[i]);
        i = i + 1;
    }
    assert(values@.take(values@.len() as int) =~= values@);
}

/// Padding at the end is what the commitment hashes.
pub proof fn front_residues(values: Seq<u64>)
    ensures
        residues(front(values)) == padded(values, MAX_ROWS as nat),
{
    assert(residues(front(values)) =~= padded(values, MAX_ROWS as nat));
}

/// The wires of an input column hold the residues of the words that were
/// handed in there.
pub proof fn input_column(
    w: Seq<u64>,
    inputs: Seq<u64>,
    n_inputs: int,
    first: Target,
    col: Seq<u64>,
)
    requires
        inputs.len() == n_inputs,
        n_inputs <= w.len(),
        first + col.len() <= n_inputs,
        forall|j: int| 0 <= j < n_inputs ==> #[trigger] w[j] == residue(inputs[j]),
        inputs.subrange(first as int, first + col.len()) == col,
    ensures
        column(w, first, col.len()) == residues(col),
{
    assert forall|i: int| 0 <= i < col.len() implies column(w, first, col.len())[i] == residues(
        col,
    )[i] by {
        assert(col[i] == inputs.subrange(first as int, first + col.len())[i]);
        assert(w[first + i] == residue(inputs[first + i]));
    }
    assert(column(w, first, col.len()) =~= residues(col));
}

impl ConstraintSystem {
    /// Computes the assignment that the inputs determine, and tests whether it
    /// meets every check.
    pub fn solve<H: Fn(&Vec<u64>) -> [u64; 4]>(&self, inputs: &Vec<u64>, hash: &H) -> (r: (
        CircuitWitness,
        bool,
    ))
        requires
            self.wf(),
            inputs@.len() == self.n_inputs,
            is_total(*hash),
        ensures
            r.0.wires@.len() == self.n_wires,
            forall|j: int|
                0 <= j < self.n_inputs ==> #[trigger] r.0.wires@[j] == residue(inputs@[j]),
            forall|h: FieldHash| #[trigger] computes(*hash, h) ==> self.runs(r.0.wires@, h),
            r.0.public_inputs@ == self.public_values(r.0.wires@),
            r.1 == self.passes(r.0.wires@),
    {
        let wires: Vec<u64> = self.assign(inputs, hash);
        let public_inputs: Vec<u64> = self.read_public_inputs(&wires);
        let ok: bool = self.check_passes(&wires);
        assert forall|h: FieldHash| #[trigger] computes(*hash, h) implies self.runs(wires@, h) by {}
        (CircuitWitness { wires, public_inputs }, ok)
    }
}

} // verus!
