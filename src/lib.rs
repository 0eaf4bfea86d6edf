//! Routing core of a multi-client text broadcast server.
//!
//! The library holds the decisions: which connections observe a message,
//! what an outbound actor writes, when an inbound or outbound actor stops,
//! and how the hub keeps its registry of live recipients. Sockets, threads
//! and channels stay with the caller.
use vstd::prelude::*;

pub mod actors;
pub mod hub;
pub mod laws;
pub mod message;
pub mod wire;

verus! {

} // verus!
