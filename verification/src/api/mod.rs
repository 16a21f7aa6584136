//! What the HTTP interface says of proofs and benchmarks.

pub mod benchmarks;
pub mod dto;
pub mod laws;
