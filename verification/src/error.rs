//! The recoverable faults of the transport and of the broadcast layer.

use vstd::prelude::*;

verus! {

/// A fault of the transport. None of them ends a node: the caller reports
/// it and goes on.
#[derive(Clone, Copy, Debug, PartialEq, Eq, Structural)]
pub enum TransportError {
    /// The destination peer is unknown or cannot be reached.
    PeerUnreachable,
    /// Writing to a peer failed.
    WriteFailed,
    /// The connection that inbound data arrives on failed.
    ConnectionFailed,
    /// Inbound data was not framed as the wire format asks.
    MalformedFrame,
}

/// Why the broadcast layer could not take in an inbound payload.
#[derive(Clone, Copy, Debug, PartialEq, Eq, Structural)]
pub enum ReceiveError {
    /// The transport reported a fault.
    Transport(TransportError),
    /// The payload is not well-formed UTF-8. It is dropped.
    Decode,
}

} // verus!
