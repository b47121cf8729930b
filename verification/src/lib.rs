//! A scriptable TCP protocol double: the verified core of a server that
//! replays a fixed script of byte-exact send/receive/shutdown actions
//! against each connection and reports per-action outcomes.
//!
//! This library holds the protocol engine itself: the frame buffer that
//! accumulates socket bytes and matches them against expected messages,
//! the script model and its load-time validation, the per-connection
//! script interpreter, the result collector, and the listener-side
//! admission and accept-retry policies. The surrounding process (sockets,
//! timers, the report file) drives these functions from outside.

pub mod connection;
pub mod interpreter;
pub mod mapping;
pub mod processor;
pub mod reporter;
pub mod server;

use vstd::prelude::*;

verus! {

/// Largest number of connections that may hold an admission slot at once.
pub const MAX_CONNECTIONS: usize = 10;

} // verus!
