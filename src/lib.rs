//! Drives a hot-reload workflow against a running VM: tracks changed source
//! files, talks to a resident incremental compiler, correlates RPC responses
//! with their requests and sequences each reload cycle.

pub mod compiler;
pub mod objects;
pub mod reload;
pub mod rpc;
pub mod tracker;
pub mod upload;
