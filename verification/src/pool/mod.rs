//! Connection pool for reusing iroh connections.

pub mod actor;
pub mod connection;

use crate::time::{duration_of_secs, secs};
use std::time::Duration;
use vstd::prelude::*;
use vstd::string::*;

verus! {

/// How many requests wait for the pool at most.
pub const POOL_CHANNEL_CAPACITY: usize = 256;

/// How many requests wait for one connection at most.
pub const CONNECTION_CHANNEL_CAPACITY: usize = 64;

/// How often a stream is tried on a pooled connection.
pub const OPEN_STREAM_RETRIES: usize = 2;

/// Configuration for the connection pool.
#[derive(Debug, PartialEq, Eq, Hash)]
pub struct PoolOptions {
    /// Duration to keep idle connections alive. Default: 10s.
    pub idle_timeout: Duration,
    /// Timeout for connection establishment. Default: 5s.
    pub connect_timeout: Duration,
    /// Maximum concurrent connections. Default: 1024.
    pub max_connections: usize,
}

impl Clone for PoolOptions {
    fn clone(&self) -> (r: PoolOptions)
        ensures
            r == *self,
    {
        PoolOptions {
            idle_timeout: self.idle_timeout,
            connect_timeout: self.connect_timeout,
            max_connections: self.max_connections,
        }
    }
}

impl Default for PoolOptions {
    fn default() -> (r: PoolOptions)
        ensures
            r.idle_timeout == duration_of_secs(10),
            r.connect_timeout == duration_of_secs(5),
            r.max_connections == 1024,
    {
        PoolOptions { idle_timeout: secs(10), connect_timeout: secs(5), max_connections: 1024 }
    }
}

/// Error from pool operations.
#[derive(Debug)]
pub enum PoolError {
    /// The connection pool has been shut down.
    Shutdown,
    /// Connection timed out.
    Timeout,
    /// No Tokio runtime is active.
    NoRuntime,
    /// Too many active connections.
    TooManyConnections,
    /// The pooled connection actor is saturated.
    Busy,
    /// The pooled connection closed before it could be reused.
    Closed,
    /// Iroh connection error, with its description.
    Connect(String),
}

/// The text that describes a pool error.
pub open spec fn pool_error_text(error: PoolError) -> Seq<char> {
    match error {
        PoolError::Shutdown => "connection pool is shut down"@,
        PoolError::Timeout => "connection timed out"@,
        PoolError::NoRuntime => "no tokio runtime is active"@,
        PoolError::TooManyConnections => "too many connections"@,
        PoolError::Busy => "pooled connection is busy"@,
        PoolError::Closed => "connection closed before reuse"@,
        PoolError::Connect(cause) => "connect error: "@ + cause@,
    }
}

impl Clone for PoolError {
    fn clone(&self) -> (r: PoolError)
        ensures
            r == *self,
    {
        self.copied()
    }
}

impl PoolError {
    /// A copy of the error.
    pub fn copied(&self) -> (r: PoolError)
        ensures
            r == *self,
    {
        match self {
            PoolError::Shutdown => PoolError::Shutdown,
            PoolError::Timeout => PoolError::Timeout,
            PoolError::NoRuntime => PoolError::NoRuntime,
            PoolError::TooManyConnections => PoolError::TooManyConnections,
            PoolError::Busy => PoolError::Busy,
            PoolError::Closed => PoolError::Closed,
            PoolError::Connect(cause) => PoolError::Connect(cause.clone()),
        }
    }

    /// The text that describes the error.
    pub fn message(&self) -> (r: String)
        ensures
            r@ == pool_error_text(*self),
    {
        let mut text = String::new();
        match self {
            PoolError::Shutdown => text.append("connection pool is shut down"),
            PoolError::Timeout => text.append("connection timed out"),
            PoolError::NoRuntime => text.append("no tokio runtime is active"),
            PoolError::TooManyConnections => text.append("too many connections"),
            PoolError::Busy => text.append("pooled connection is busy"),
            PoolError::Closed => text.append("connection closed before reuse"),
            PoolError::Connect(cause) => {
                text.append("connect error: ");
                text.append(cause.as_str());
            },
        }
        assert(text@ =~= pool_error_text(*self));
        text
    }
}

/// How a request reaches the pool's actor.
pub enum MailboxStep {
    /// Not at all, for this reason.
    Refuse(PoolError),
    /// Through the mailbox that is there.
    Use,
    /// Through the mailbox of an actor that is started now.
    Start,
}

/// Decide how a request reaches the pool's actor: not once the pool is closed; through the actor
/// that runs; else through a new one, which needs a runtime.
pub fn mailbox_step(closed: bool, running: bool, in_runtime: bool) -> (r: MailboxStep)
    ensures
        r == if closed {
            MailboxStep::Refuse(PoolError::Shutdown)
        } else if running {
            MailboxStep::Use
        } else if in_runtime {
            MailboxStep::Start
        } else {
            MailboxStep::Refuse(PoolError::NoRuntime)
        },
{
    if closed {
        MailboxStep::Refuse(PoolError::Shutdown)
    } else if running {
        MailboxStep::Use
    } else if in_runtime {
        MailboxStep::Start
    } else {
        MailboxStep::Refuse(PoolError::NoRuntime)
    }
}

/// Whether the pool shuts down when one of that many handles is dropped.
pub fn drop_shuts_down(handles: usize) -> (r: bool)
    ensures
        r == (handles == 1),
{
    handles == 1
}

/// The attempts to get a lease from the pool.
pub struct LeaseAttempts {
    made: usize,
}

impl View for LeaseAttempts {
    type V = nat;

    closed spec fn view(&self) -> nat {
        self.made as nat
    }
}

impl LeaseAttempts {
    /// No attempt so far.
    pub fn new() -> (r: LeaseAttempts)
        ensures
            r@ == 0,
    {
        LeaseAttempts { made: 0 }
    }

    /// Takes note of the pool's answer, if there was one. Gives the outcome, or nothing where the
    /// pool is to be asked once more, because the connection closed under it.
    pub fn on_reply<R>(&mut self, reply: Option<Result<R, PoolError>>) -> (r: Option<
        Result<R, PoolError>,
    >)
        requires
            old(self)@ < OPEN_STREAM_RETRIES,
        ensures
            final(self)@ == old(self)@ + 1,
            r == match reply {
                None => Some(Err::<R, PoolError>(PoolError::Shutdown)),
                Some(Err(PoolError::Closed)) => if final(self)@ < OPEN_STREAM_RETRIES {
                    None
                } else {
                    Some(Err::<R, PoolError>(PoolError::Closed))
                },
                Some(other) => Some(other),
            },
    {
        self.made = self.made + 1;
        match reply {
            None => Some(Err(PoolError::Shutdown)),
            Some(Err(PoolError::Closed)) => if self.made < OPEN_STREAM_RETRIES {
                None
            } else {
                Some(Err(PoolError::Closed))
            },
            Some(other) => Some(other),
        }
    }
}

/// What follows an attempt to open a stream on a pooled connection.
pub enum OpenStep<S> {
    /// The stream is there.
    Opened(S),
    /// The connection is no good: drop it from the pool and try again.
    Retry,
    /// The connection is no good: drop it from the pool and give up, for this reason.
    Abort(String),
}

/// The attempts to open a stream on a pooled connection.
pub struct StreamAttempts {
    made: usize,
}

impl View for StreamAttempts {
    type V = nat;

    closed spec fn view(&self) -> nat {
        self.made as nat
    }
}

impl StreamAttempts {
    /// No attempt so far.
    pub fn new() -> (r: StreamAttempts)
        ensures
            r@ == 0,
    {
        StreamAttempts { made: 0 }
    }

    /// Takes note of how an attempt ended.
    pub fn on_open<S>(&mut self, opened: Result<S, String>) -> (r: OpenStep<S>)
        requires
            old(self)@ < OPEN_STREAM_RETRIES,
        ensures
            final(self)@ == old(self)@ + 1,
            r == match opened {
                Ok(stream) => OpenStep::Opened(stream),
                Err(cause) => if final(self)@ < OPEN_STREAM_RETRIES {
                    OpenStep::Retry
                } else {
                    OpenStep::Abort(cause)
                },
            },
    {
        self.made = self.made + 1;
        match opened {
            Ok(stream) => OpenStep::Opened(stream),
            Err(cause) => if self.made < OPEN_STREAM_RETRIES {
                OpenStep::Retry
            } else {
                OpenStep::Abort(cause)
            },
        }
    }
}

} // verus!
