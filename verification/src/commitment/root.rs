//! Commitment roots.

use vstd::prelude::*;

verus! {

/// A 32-byte commitment.
#[derive(Debug, Clone, Copy)]
pub struct CommitmentRoot(pub [u8; 32]);

impl CommitmentRoot {
    /// The root that is all zeros.
    pub fn zero() -> (r: CommitmentRoot)
        ensures
            r.0@ == Seq::new(32, |i: int| 0u8),
    {
        let bytes: [u8; 32] = [0u8; 32];
        assert(bytes@ =~= Seq::new(32, |i: int| 0u8));
        CommitmentRoot(bytes)
    }
}

} // verus!
