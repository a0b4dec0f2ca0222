//! A peer-to-hub chat protocol over unreliable UDP: one server multiplexes
//! many clients, tracks their liveness through heartbeats and timeouts, and
//! relays chat messages (broadcast, multicast-by-identity, or unicast).
//!
//! This crate holds the verified core: the packet data model and its binary
//! codec, the connection table and its state machine, the adapter's
//! per-iteration bookkeeping, and the client and server protocol engines.
//! Socket I/O, threads and channels live in the surrounding application,
//! which feeds plain values (received bytes, events, the clock) into these
//! functions and carries their results (send commands, events) back out.

pub mod addr;
pub mod adapter;
pub mod builder;
pub mod client;
pub mod codec;
pub mod conn;
pub mod err;
pub mod event;
pub mod header;
pub mod id;
pub mod packet;
pub mod server;
pub mod shared_state;
pub mod util;

use vstd::prelude::*;

verus! {

} // verus!
