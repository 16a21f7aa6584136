//! The logic of a zero-knowledge query database: query plans, witnesses,
//! circuits over the Goldilocks field, and the judgement of proofs.

#![allow(unused_imports)]

pub mod api;
pub mod backend;
pub mod circuit;
pub mod commitment;
pub mod database;
pub mod encoding;
pub mod field;
pub mod outside;
pub mod proofs;
pub mod query;
pub mod readings;
pub mod text;
pub mod types;
