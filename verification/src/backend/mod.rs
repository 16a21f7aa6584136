//! Backends: what is decided and computed around the making and checking of
//! proofs.

pub mod classify;
pub mod clipping;
pub mod laws;
pub mod messages;
pub mod mock;
pub mod mocks;
pub mod outcomes;
pub mod pipeline;
pub mod plans;
pub mod plonky2;
pub mod soundness;
pub mod verdicts;
pub mod verify;
