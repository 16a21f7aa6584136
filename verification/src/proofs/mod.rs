//! Proofs and what verification says of them.

pub mod artifacts;
