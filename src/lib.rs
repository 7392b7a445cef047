//! A toy payment ledger: a verified transaction state machine over a
//! pluggable account/transaction store, with client sharding.
pub mod common;
pub mod basic;
pub mod exec;
pub mod advanced;
pub mod laws;
pub mod plan;
