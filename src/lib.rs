//! Unreliable datagrams carried beside the reliable streams of a QUIC-style
//! connection: size negotiation, a bounded outgoing queue, the frame writer
//! and the inbound size gate.
use vstd::prelude::*;

pub mod datagrams;
pub mod events;
pub mod packet;
pub mod stream;
pub mod varint;

verus! {

/// Errors that the datagram operations and the stream fixture report.
#[derive(Clone, Copy, Debug, PartialEq, Eq)]
pub enum Error {
    /// An outgoing datagram is larger than the peer accepts.
    SizeExceeded,
    /// The peer sent a datagram larger than this endpoint accepts.
    ProtocolViolation,
    /// An application error code, as carried by stream resets.
    Application(u64),
}

pub type Res<T> = Result<T, Error>;

} // verus!
