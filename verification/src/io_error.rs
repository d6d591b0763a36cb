//! Kinds of I/O errors.

use vstd::prelude::*;

verus! {

/// The kinds of I/O errors that the transport reports.
#[derive(Debug, Clone, Copy, PartialEq, Eq, Structural)]
pub enum IoErrorKind {
    /// The peer does not support what was asked for.
    Unsupported,
    /// The peer sent something invalid.
    InvalidData,
    /// The peer refused the connection.
    ConnectionRefused,
    /// The connection was ended by the peer's transport.
    ConnectionAborted,
    /// The connection was reset.
    ConnectionReset,
    /// It took too long.
    TimedOut,
    /// There is no connection.
    NotConnected,
    /// The peer could not be authenticated.
    PermissionDenied,
    /// The peer no longer reads.
    BrokenPipe,
    /// Anything else.
    Other,
}

} // verus!
