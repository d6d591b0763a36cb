//! How accepted streams reach the gRPC server.

use vstd::prelude::*;

verus! {

/// How many accepted streams wait for the server by default.
pub const DEFAULT_INCOMING_BUFFER_CAPACITY: usize = 256;

/// The code that a stream is refused with while the server is overloaded.
pub const OVERLOAD_STREAM_ERROR_CODE: u32 = 1;

/// Whether the server's queue has room for a stream.
#[derive(Debug, Clone, Copy, PartialEq, Eq, Structural)]
pub enum QueueState {
    /// There is room.
    Room,
    /// There is none.
    Full,
    /// The server is gone.
    Closed,
}

/// What is done after the connection was asked for the next stream.
#[derive(Debug, Clone, Copy, PartialEq, Eq, Structural)]
pub enum AcceptStep {
    /// Hand the stream to the server and go on.
    Forward,
    /// Refuse the stream with the code and go on.
    Reject(u32),
    /// Refuse the stream with the code and leave the connection.
    RejectAndStop(u32),
    /// Leave the connection.
    Stop,
}

/// Decide what to do after the connection was asked for the next stream, where `queue` is nothing
/// if there is none. A stream that finds the queue full is refused at once instead of waiting.
pub fn accept_step(queue: Option<QueueState>) -> (r: AcceptStep)
    ensures
        r == match queue {
            Some(QueueState::Room) => AcceptStep::Forward,
            Some(QueueState::Full) => AcceptStep::Reject(OVERLOAD_STREAM_ERROR_CODE),
            Some(QueueState::Closed) => AcceptStep::RejectAndStop(OVERLOAD_STREAM_ERROR_CODE),
            None => AcceptStep::Stop,
        },
{
    match queue {
        Some(QueueState::Room) => AcceptStep::Forward,
        Some(QueueState::Full) => AcceptStep::Reject(OVERLOAD_STREAM_ERROR_CODE),
        Some(QueueState::Closed) => AcceptStep::RejectAndStop(OVERLOAD_STREAM_ERROR_CODE),
        None => AcceptStep::Stop,
    }
}

/// Accepts iroh connections and converts them to gRPC streams, which go out through a sender.
#[derive(Debug, Clone)]
pub struct GrpcProtocolHandler<S> {
    sender: S,
    service_name: String,
}

impl<S> GrpcProtocolHandler<S> {
    /// The sender.
    pub closed spec fn outlet(self) -> S {
        self.sender
    }

    /// The name of the service.
    pub closed spec fn service(self) -> Seq<char> {
        self.service_name@
    }

    /// Create a `GrpcProtocolHandler` using an existing sender.
    pub fn with_sender(service_name: String, sender: S) -> (r: GrpcProtocolHandler<S>)
        ensures
            r.outlet() == sender,
            r.service() == service_name@,
    {
        GrpcProtocolHandler { sender, service_name }
    }

    /// The sender.
    pub fn sender(&self) -> (r: &S)
        ensures
            *r == self.outlet(),
    {
        &self.sender
    }

    /// The name of the service.
    pub fn service_name(&self) -> (r: &str)
        ensures
            r@ == self.service(),
    {
        self.service_name.as_str()
    }
}

} // verus!
