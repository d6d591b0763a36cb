//! Client connector for tonic over iroh.

use crate::alpn::{service_alpn, service_to_alpn};
use crate::io_error::IoErrorKind;
use crate::octets::copy_bytes;
use std::time::Duration;
use vstd::prelude::*;

verus! {

/// Why a connection ended.
#[derive(Debug, Clone, Copy, PartialEq, Eq, Structural)]
pub enum ConnectionFailure {
    /// The peer speaks no common version.
    VersionMismatch,
    /// The transport found an error.
    TransportError,
    /// The peer's transport closed the connection.
    ConnectionClosed,
    /// The peer's application closed the connection.
    ApplicationClosed,
    /// The peer reset the connection.
    Reset,
    /// The peer did not answer for too long.
    TimedOut,
    /// This side closed the connection.
    LocallyClosed,
    /// No connection ids were left.
    CidsExhausted,
}

/// The kind of I/O error for a connection that ended: what the peer's application closed was
/// reset, what the peer's transport closed was aborted.
pub open spec fn connection_kind(failure: ConnectionFailure) -> IoErrorKind {
    match failure {
        ConnectionFailure::VersionMismatch => IoErrorKind::Unsupported,
        ConnectionFailure::TransportError => IoErrorKind::InvalidData,
        ConnectionFailure::ConnectionClosed => IoErrorKind::ConnectionAborted,
        ConnectionFailure::ApplicationClosed | ConnectionFailure::Reset => {
            IoErrorKind::ConnectionReset
        },
        ConnectionFailure::TimedOut => IoErrorKind::TimedOut,
        ConnectionFailure::LocallyClosed => IoErrorKind::NotConnected,
        ConnectionFailure::CidsExhausted => IoErrorKind::Other,
    }
}

/// Map the end of a connection to an appropriate kind of I/O error.
pub fn connection_error_to_io(failure: ConnectionFailure) -> (r: IoErrorKind)
    ensures
        r == connection_kind(failure),
{
    match failure {
        ConnectionFailure::VersionMismatch => IoErrorKind::Unsupported,
        ConnectionFailure::TransportError => IoErrorKind::InvalidData,
        ConnectionFailure::ConnectionClosed => IoErrorKind::ConnectionAborted,
        ConnectionFailure::ApplicationClosed => IoErrorKind::ConnectionReset,
        ConnectionFailure::Reset => IoErrorKind::ConnectionReset,
        ConnectionFailure::TimedOut => IoErrorKind::TimedOut,
        ConnectionFailure::LocallyClosed => IoErrorKind::NotConnected,
        ConnectionFailure::CidsExhausted => IoErrorKind::Other,
    }
}

/// Why a connection was not established.
#[derive(Debug, Clone, Copy, PartialEq, Eq, Structural)]
pub enum ConnectingFailure {
    /// It ended before.
    Connection(ConnectionFailure),
    /// The handshake failed.
    HandshakeFailure,
    /// Anything else.
    Other,
}

/// The kind of I/O error for a connection that was not established.
pub open spec fn connecting_kind(failure: ConnectingFailure) -> IoErrorKind {
    match failure {
        ConnectingFailure::Connection(inner) => connection_kind(inner),
        ConnectingFailure::HandshakeFailure => IoErrorKind::PermissionDenied,
        ConnectingFailure::Other => IoErrorKind::Other,
    }
}

/// Map the failure to establish a connection to an appropriate kind of I/O error.
pub fn connecting_error_to_io(failure: ConnectingFailure) -> (r: IoErrorKind)
    ensures
        r == connecting_kind(failure),
{
    match failure {
        ConnectingFailure::Connection(inner) => connection_error_to_io(inner),
        ConnectingFailure::HandshakeFailure => IoErrorKind::PermissionDenied,
        ConnectingFailure::Other => IoErrorKind::Other,
    }
}

/// Where connecting to a peer failed.
#[derive(Debug, Clone, Copy, PartialEq, Eq, Structural)]
pub enum ConnectFailure {
    /// The connection could not be begun.
    Begin,
    /// It was begun with options of its own, and not established.
    Establish(ConnectingFailure),
    /// No stream could be opened on it.
    OpenStream(ConnectionFailure),
}

/// The kind of I/O error for each place where connecting can fail.
pub fn connect_failure_kind(failure: ConnectFailure) -> (r: IoErrorKind)
    ensures
        r == match failure {
            ConnectFailure::Begin => IoErrorKind::ConnectionRefused,
            ConnectFailure::Establish(inner) => connecting_kind(inner),
            ConnectFailure::OpenStream(inner) => connection_kind(inner),
        },
{
    match failure {
        ConnectFailure::Begin => IoErrorKind::ConnectionRefused,
        ConnectFailure::Establish(inner) => connecting_error_to_io(inner),
        ConnectFailure::OpenStream(inner) => connection_error_to_io(inner),
    }
}

/// Builder for iroh connections: from an endpoint, to a target, with an ALPN, and optionally with a
/// timeout and a transport configuration.
pub struct ConnectBuilder<E, A, C> {
    /// The endpoint to connect from.
    pub endpoint: E,
    /// The address to connect to.
    pub target: A,
    /// The ALPN to connect with.
    pub alpn: Vec<u8>,
    /// How long connecting may take.
    pub connect_timeout: Option<Duration>,
    /// The transport configuration, where it is not the default.
    pub transport_config: Option<C>,
}

impl<E, A, C> ConnectBuilder<E, A, C> {
    fn new(endpoint: E, target: A, alpn: Vec<u8>) -> (r: ConnectBuilder<E, A, C>)
        ensures
            r == (ConnectBuilder {
                endpoint,
                target,
                alpn,
                connect_timeout: None,
                transport_config: None::<C>,
            }),
    {
        ConnectBuilder { endpoint, target, alpn, connect_timeout: None, transport_config: None }
    }

    /// Set the connection timeout.
    ///
    /// If the connection is not established within this duration, the connect call will return an
    /// error.
    #[must_use]
    pub fn connect_timeout(self, timeout: Duration) -> (r: ConnectBuilder<E, A, C>)
        ensures
            r == (ConnectBuilder { connect_timeout: Some(timeout), ..self }),
    {
        let mut r = self;
        r.connect_timeout = Some(timeout);
        r
    }

    /// Set custom QUIC transport configuration.
    ///
    /// **Warning**: Modifying transport config may affect the ability to establish and maintain
    /// direct connections. Test carefully.
    #[must_use]
    pub fn transport_config(self, config: C) -> (r: ConnectBuilder<E, A, C>)
        ensures
            r == (ConnectBuilder { transport_config: Some(config), ..self }),
    {
        let mut r = self;
        r.transport_config = Some(config);
        r
    }
}

/// Connect to a service on a remote peer: the ALPN is derived from the service name.
#[must_use]
pub fn connect<E, A, C>(endpoint: E, target: A, service_name: &str) -> (r: ConnectBuilder<E, A, C>)
    ensures
        r.endpoint == endpoint,
        r.target == target,
        r.alpn@ == service_alpn(service_name@),
        r.connect_timeout is None,
        r.transport_config is None,
{
    ConnectBuilder::new(endpoint, target, service_to_alpn(service_name))
}

/// Connect with a custom ALPN protocol.
///
/// Use this when connecting to services that do not use tonic's generated server types, or when you
/// need to specify a custom ALPN.
#[must_use]
pub fn connect_alpn<E, A, C>(endpoint: E, target: A, alpn: &[u8]) -> (r: ConnectBuilder<E, A, C>)
    ensures
        r.endpoint == endpoint,
        r.target == target,
        r.alpn@ == alpn@,
        r.connect_timeout is None,
        r.transport_config is None,
{
    ConnectBuilder::new(endpoint, target, copy_bytes(alpn))
}

} // verus!
