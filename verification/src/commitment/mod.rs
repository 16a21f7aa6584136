//! Commitments to rows and snapshots.

pub mod laws;
pub mod poseidon;
pub mod root;
