//! Circuits: constraint systems for each kind of operator, and the witnesses
//! that satisfy them.

pub mod agg;
pub mod gadgets;
pub mod group_by;
pub mod inputs;
pub mod join;
pub mod laws;
pub mod ordering;
pub mod permutation;
pub mod sort;
pub mod system;
pub mod traces;
pub mod witness;
