//! A minimal contract-execution harness: an execution-environment adapter
//! (argument introspection, result finishing, error signaling) together with
//! four endpoints that exercise it.

pub mod adapter;
pub mod encoding;
pub mod endpoints;
