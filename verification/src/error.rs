//! What can go wrong on a socket.

use vstd::prelude::*;

verus! {

/// Why a socket could not do what it was asked.
#[derive(Debug, Clone, Copy, PartialEq, Eq, Structural)]
pub enum SocketError {
    /// There is nothing to receive at the moment.
    WouldBlock,
    /// The address belongs to nobody that the socket can reach.
    AddrNotAvailable,
    /// The connection is over.
    ConnectionAborted,
    /// What was received does not fit.
    InvalidData,
    /// What was to be sent is no packet of a known type.
    UnknownPacket,
}

} // verus!
