//! Core of a terminal chat client and its backend relay: the wire protocol
//! between them, the relay's per-connection session state machine, the
//! client's conversation state machine, the connection manager's retry
//! logic, and the formatting rules of the local search tool.
//!
//! Everything here is pure logic over plain values; the network, terminal
//! and file-system edges live outside the library and hand values in.

pub mod client;
pub mod codec;
pub mod conn;
pub mod grep;
pub mod jsontext;
pub mod logger;
pub mod msg;
pub mod relay;
pub mod strutil;
pub mod ui;
pub mod tools;

use vstd::prelude::*;

verus! {

} // verus!
