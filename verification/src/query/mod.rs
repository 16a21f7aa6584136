//! Query plans: logical, physical, and for proving.

pub mod ast;
pub mod laws;
pub mod logical_plan;
pub mod physical_plan;
pub mod proof_plan;
