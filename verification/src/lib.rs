//! Fetch the latest snapshot of a repository from a forge, keep it in a local
//! cache keyed by commit, and unpack it with the wrapper directory removed.
//!
//! This crate holds the decisions of that pipeline as verified functions on
//! plain values. The caller performs the network and filesystem operations
//! and hands their results back.

pub mod error;
pub mod text;
pub mod repo;
pub mod fetch;
pub mod cache;
pub mod extract;
pub mod pipeline;
