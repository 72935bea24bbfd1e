//! A relay that bridges one serial-line device with a dynamically changing
//! set of concurrent network clients: bytes arriving on the serial line are
//! broadcast to every connected client, and bytes arriving from any client
//! are merged onto the single serial line.
//!
//! The library holds the verified coordination logic: the registry of live
//! connections, the fan-out and fan-in transitions of the coordinator, and
//! the per-worker read decisions. The surrounding process (device handles,
//! sockets, threads) drives these functions from outside.

pub mod coordinator;
pub mod ids;
pub mod opts;
pub mod workers;

use vstd::prelude::*;

verus! {

/// Number of bytes requested per read from the serial device. An I/O
/// granularity only, never a message boundary.
pub const SERIAL_READ_CHUNK: usize = 128;

/// Number of bytes requested per read from a client socket. An I/O
/// granularity only, never a message boundary.
pub const CLIENT_READ_CHUNK: usize = 64;

} // verus!
