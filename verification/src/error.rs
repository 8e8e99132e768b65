use vstd::prelude::*;

verus! {

/// Why a connection attempt or a session operation failed.
///
/// Handshake failures are terminal for that attempt: the caller decides
/// whether to reconnect. `ConnectionRefused` carries the daemon's numeric
/// rejection code, sign-extended from the single status byte it sends.
#[derive(Clone, Copy, Debug, PartialEq, Eq, Structural)]
pub enum SpreadError {
    /// The stream closed prematurely during a handshake step.
    ConnectionFailed,
    /// The daemon rejected the connection; carries the sign-extended code.
    ConnectionRefused(i32),
    /// The daemon runs a protocol version older than the client supports.
    ProtocolVersionUnsupported,
    /// Outbound text could not be represented in the wire codec.
    EncodingFailed,
    /// Structurally invalid data arrived from the daemon.
    MalformedServerResponse,
    /// A pass-through I/O failure on the underlying transport.
    TransportError,
}

} // verus!
