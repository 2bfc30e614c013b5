//! A flight-reservation service over unreliable datagrams.
//!
//! The library holds the wire codec, the request and response messages with
//! their correlation-id envelope, the flight table, the seat-update
//! watchlist, the at-most-once reply cache, the server's dispatch under
//! either invocation semantics, and the client's request/retry state
//! machine. Sockets, clocks and the console are left to the caller.
use vstd::prelude::*;

pub mod cache;
pub mod client;
pub mod codec;
pub mod protocol;
pub mod server;
pub mod services;
pub mod store;
pub mod watchlist;

verus! {

} // verus!
