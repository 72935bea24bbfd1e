//! Per-worker read decisions.
//!
//! Each reader worker of the relay sits in a loop: read from its handle,
//! then decide what the read means. The reads themselves are performed by
//! the surrounding process; the decisions are made here. A read outcome is
//! handed over as `Some(n)` for a successful read of `n` bytes into the
//! buffer, or `None` for a read error.

use vstd::prelude::*;

verus! {

/// What a serial reader does with one read outcome: forward a chunk to the
/// coordinator, or retry the read.
pub enum SerialRead {
    /// Forward this chunk to the coordinator for broadcast.
    Forward(Vec<u8>),
    /// Read again; nothing is forwarded. A zero-length serial read means
    /// "no data now", not end-of-stream, and a read error is transient.
    Retry,
}

/// What a connection reader does with one read outcome: forward a chunk,
/// announce the client's departure, or skip the iteration.
pub enum ClientRead {
    /// Forward this chunk to the coordinator for merging onto the serial
    /// line.
    Forward(Vec<u8>),
    /// The client closed its connection (zero-length read): announce its
    /// departure and stop this worker.
    Disconnect,
    /// A read error: nothing is forwarded and nothing is torn down; the
    /// worker reads again.
    Skip,
}

/// The first `n` bytes of the read buffer, as their own chunk.
pub fn chunk_prefix(buf: &Vec<u8>, n: usize) -> (c: Vec<u8>)
    requires
        n <= buf@.len(),
    ensures
        c@ == buf@.subrange(0, n as int),
{
    let mut c: Vec<u8> = Vec::new();
    let mut i: usize = 0;
    while i < n
        invariant
            i <= n <= buf@.len(),
            c@ == buf@.subrange(0, i as int),
        decreases n - i,
    {
        c.push(buf[i]);
        proof {
            assert(buf@.subrange(0, i + 1) =~= buf@.subrange(0, i as int).push(buf@[i as int]));
        }
        i += 1;
    }
    c
}

/// Decides one iteration of the serial reader: a successful read of one or
/// more bytes forwards exactly those bytes; a zero-length read and a read
/// error forward nothing and the worker retries.
pub fn serial_read_decision(outcome: Option<usize>, buf: &Vec<u8>) -> (d: SerialRead)
    requires
        outcome matches Some(n) ==> n <= buf@.len(),
    ensures
        (outcome matches Some(n) && n > 0) ==> (d matches SerialRead::Forward(c) && c@
            == buf@.subrange(0, outcome->0 as int)),
        (outcome matches Some(n) && n == 0) ==> d is Retry,
        outcome is None ==> d is Retry,
{
    match outcome {
        Some(n) => if n > 0 {
            SerialRead::Forward(chunk_prefix(buf, n))
        } else {
            SerialRead::Retry
        },
        None => SerialRead::Retry,
    }
}

/// Decides one iteration of a connection reader: a zero-length read is a
/// clean disconnect; a successful read of one or more bytes forwards
/// exactly those bytes; a read error forwards nothing, tears nothing down,
/// and the worker reads again.
pub fn client_read_decision(outcome: Option<usize>, buf: &Vec<u8>) -> (d: ClientRead)
    requires
        outcome matches Some(n) ==> n <= buf@.len(),
    ensures
        (outcome matches Some(n) && n == 0) ==> d is Disconnect,
        (outcome matches Some(n) && n > 0) ==> (d matches ClientRead::Forward(c) && c@
            == buf@.subrange(0, outcome->0 as int)),
        outcome is None ==> d is Skip,
{
    match outcome {
        Some(n) => if n == 0 {
            ClientRead::Disconnect
        } else {
            ClientRead::Forward(chunk_prefix(buf, n))
        },
        None => ClientRead::Skip,
    }
}

} // verus!
