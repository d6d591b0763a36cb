//! One pooled connection: when it is lent out, when it idles, and when it ends.

use super::PoolError;
use vstd::prelude::*;

verus! {

/// How the attempt to connect ended.
pub enum ConnectAttempt<C> {
    /// With a connection.
    Connected(C),
    /// With an error, as described.
    Failed(String),
    /// It took too long.
    TimedOut,
}

/// The connection, or the error that stands for its absence.
pub fn connect_outcome<C>(attempt: ConnectAttempt<C>) -> (r: Result<C, PoolError>)
    ensures
        r == match attempt {
            ConnectAttempt::Connected(connection) => Ok(connection),
            ConnectAttempt::Failed(cause) => Err(PoolError::Connect(cause)),
            ConnectAttempt::TimedOut => Err(PoolError::Timeout),
        },
{
    match attempt {
        ConnectAttempt::Connected(connection) => Ok(connection),
        ConnectAttempt::Failed(cause) => Err(PoolError::Connect(cause)),
        ConnectAttempt::TimedOut => Err(PoolError::Timeout),
    }
}

/// What happens to a pooled connection.
pub enum ConnectionEvent {
    /// The pool is shut down.
    ShutdownSignalled,
    /// The connection was closed.
    Closed,
    /// Someone asks for the connection; `already_closed` if it has a close reason by now.
    Request {
        /// Whether the connection is found closed.
        already_closed: bool,
    },
    /// Nobody can ask for the connection any more.
    MailboxClosed,
    /// A lease was given back that was the last at the time.
    LeasesReturned,
    /// The idle time is over.
    IdleElapsed,
}

/// What a connection's actor tells the pool.
pub enum ConnectionReport {
    /// Nobody uses the connection.
    Idle,
    /// The connection is gone.
    Shutdown,
}

/// What a connection's actor answers a request.
pub enum LeaseReply {
    /// A lease of the connection.
    Grant,
    /// An error.
    Refuse(PoolError),
}

/// What a connection's actor is to do: report to the pool, then answer, then set the idle timer,
/// then stop, each only where it says so.
pub struct ConnectionStep {
    /// What to tell the pool.
    pub report: Option<ConnectionReport>,
    /// What to answer the request.
    pub reply: Option<LeaseReply>,
    /// Whether the idle time begins now.
    pub start_idle_timer: bool,
    /// Whether the actor is done.
    pub stop: bool,
}

/// The content of a connection actor's state.
pub ghost struct ConnectionView {
    /// Why there is no connection, if there is none.
    pub error: Option<PoolError>,
    /// Whether the idle time runs.
    pub idle_active: bool,
    /// Whether the pool was shut down.
    pub shutdown_pending: bool,
}

impl ConnectionView {
    /// There is a connection.
    pub open spec fn connected(self) -> bool {
        self.error is None
    }

    /// The event can happen in this state.
    pub open spec fn enabled(self, event: ConnectionEvent) -> bool {
        match event {
            ConnectionEvent::ShutdownSignalled => !self.shutdown_pending,
            ConnectionEvent::Closed => self.connected(),
            ConnectionEvent::Request { .. } => true,
            ConnectionEvent::MailboxClosed => true,
            ConnectionEvent::LeasesReturned => self.connected(),
            ConnectionEvent::IdleElapsed => self.idle_active,
        }
    }
}

/// The step that does nothing.
pub open spec fn quiet() -> ConnectionStep {
    ConnectionStep { report: None, reply: None, start_idle_timer: false, stop: false }
}

/// What is done at an event, with that many leases out.
pub open spec fn step_at(
    state: ConnectionView,
    event: ConnectionEvent,
    leases: usize,
) -> ConnectionStep {
    match event {
        ConnectionEvent::ShutdownSignalled => ConnectionStep { stop: leases == 0, ..quiet() },
        ConnectionEvent::Closed => ConnectionStep {
            report: Some(ConnectionReport::Shutdown),
            stop: true,
            ..quiet()
        },
        ConnectionEvent::Request { already_closed } => match state.error {
            Some(error) => ConnectionStep { reply: Some(LeaseReply::Refuse(error)), ..quiet() },
            None => if already_closed {
                ConnectionStep {
                    report: Some(ConnectionReport::Shutdown),
                    reply: Some(LeaseReply::Refuse(PoolError::Closed)),
                    stop: true,
                    ..quiet()
                }
            } else {
                ConnectionStep { reply: Some(LeaseReply::Grant), ..quiet() }
            },
        },
        ConnectionEvent::MailboxClosed => ConnectionStep { stop: true, ..quiet() },
        ConnectionEvent::LeasesReturned => if leases > 0 {
            quiet()
        } else if state.shutdown_pending {
            ConnectionStep { stop: true, ..quiet() }
        } else {
            ConnectionStep {
                report: Some(ConnectionReport::Idle),
                start_idle_timer: true,
                ..quiet()
            }
        },
        ConnectionEvent::IdleElapsed => ConnectionStep {
            report: Some(ConnectionReport::Shutdown),
            stop: true,
            ..quiet()
        },
    }
}

/// The state after an event, with that many leases out.
pub open spec fn state_after(
    state: ConnectionView,
    event: ConnectionEvent,
    leases: usize,
) -> ConnectionView {
    let step = step_at(state, event, leases);
    ConnectionView {
        error: state.error,
        idle_active: if step.start_idle_timer {
            true
        } else if step.reply == Some(LeaseReply::Grant) {
            false
        } else {
            state.idle_active
        },
        shutdown_pending: state.shutdown_pending || event is ShutdownSignalled,
    }
}

/// The state of the actor that runs one pooled connection: it hands out leases, waits while there
/// are none, and ends when the connection closes, stays idle or is no longer wanted.
pub struct ConnectionActor {
    error: Option<PoolError>,
    idle_active: bool,
    shutdown_pending: bool,
}

impl View for ConnectionActor {
    type V = ConnectionView;

    closed spec fn view(&self) -> ConnectionView {
        ConnectionView {
            error: self.error,
            idle_active: self.idle_active,
            shutdown_pending: self.shutdown_pending,
        }
    }
}

impl ConnectionActor {
    /// Starts after the attempt to connect, with the connection where there is one and what to tell
    /// the pool.
    pub fn start<C>(outcome: Result<C, PoolError>) -> (r: (
        ConnectionActor,
        Option<C>,
        Option<ConnectionReport>,
    ))
        ensures
            r.0@ == (ConnectionView {
                error: match outcome {
                    Ok(_) => None,
                    Err(e) => Some(e),
                },
                idle_active: false,
                shutdown_pending: false,
            }),
            r.1 == match outcome {
                Ok(connection) => Some(connection),
                Err(_) => None,
            },
            r.2 == match outcome {
                Ok(_) => None::<ConnectionReport>,
                Err(_) => Some(ConnectionReport::Shutdown),
            },
    {
        match outcome {
            Ok(connection) => (
                ConnectionActor { error: None, idle_active: false, shutdown_pending: false },
                Some(connection),
                None,
            ),
            Err(e) => (
                ConnectionActor { error: Some(e), idle_active: false, shutdown_pending: false },
                None,
                Some(ConnectionReport::Shutdown),
            ),
        }
    }

    /// Takes note, before the first event, whether the pool was shut down by then. The requests
    /// that were made before are still served.
    pub fn observe_shutdown(&mut self, closed: bool)
        ensures
            final(self)@ == (ConnectionView {
                shutdown_pending: old(self)@.shutdown_pending || closed,
                ..old(self)@
            }),
    {
        if closed {
            self.shutdown_pending = true;
        }
    }

    /// Whether the pool's shutdown is waited for.
    pub fn awaits_shutdown(&self) -> (r: bool)
        ensures
            r == self@.enabled(ConnectionEvent::ShutdownSignalled),
            r == !self@.shutdown_pending,
    {
        !self.shutdown_pending
    }

    /// Whether the end of the connection and the return of leases are waited for.
    pub fn is_connected(&self) -> (r: bool)
        ensures
            r == self@.connected(),
            r == (self@.error is None),
    {
        self.error.is_none()
    }

    /// Whether the end of the idle time is waited for.
    pub fn awaits_idle_timeout(&self) -> (r: bool)
        ensures
            r == self@.enabled(ConnectionEvent::IdleElapsed),
            r == self@.idle_active,
    {
        self.idle_active
    }

    /// Handles an event, with that many leases out.
    pub fn on_event(&mut self, event: ConnectionEvent, leases: usize) -> (r: ConnectionStep)
        requires
            old(self)@.enabled(event),
        ensures
            r == step_at(old(self)@, event, leases),
            final(self)@ == state_after(old(self)@, event, leases),
            old(self)@.error is None && event == (ConnectionEvent::Request {
                already_closed: false,
            }) ==> r.reply == Some(LeaseReply::Grant) && !r.stop && r.report is None,
    {
        let mut step = ConnectionStep {
            report: None,
            reply: None,
            start_idle_timer: false,
            stop: false,
        };
        match event {
            ConnectionEvent::ShutdownSignalled => {
                self.shutdown_pending = true;
                step.stop = leases == 0;
            },
            ConnectionEvent::Closed => {
                step.report = Some(ConnectionReport::Shutdown);
                step.stop = true;
            },
            ConnectionEvent::Request { already_closed } => {
                match &self.error {
                    Some(error) => {
                        step.reply = Some(LeaseReply::Refuse(error.copied()));
                    },
                    None => if already_closed {
                        step.report = Some(ConnectionReport::Shutdown);
                        step.reply = Some(LeaseReply::Refuse(PoolError::Closed));
                        step.stop = true;
                    } else {
                        self.idle_active = false;
                        step.reply = Some(LeaseReply::Grant);
                    },
                }
            },
            ConnectionEvent::MailboxClosed => {
                step.stop = true;
            },
            ConnectionEvent::LeasesReturned => if leases == 0 {
                if self.shutdown_pending {
                    step.stop = true;
                } else {
                    step.report = Some(ConnectionReport::Idle);
                    step.start_idle_timer = true;
                    self.idle_active = true;
                }
            },
            ConnectionEvent::IdleElapsed => {
                step.report = Some(ConnectionReport::Shutdown);
                step.stop = true;
            },
        }
        step
    }

    /// The reason that the connection is closed with at the end, if there is one.
    pub fn close_reason(&self, leases: usize) -> (r: Option<&'static str>)
        ensures
            r is Some <==> self@.connected(),
            r is Some ==> r->0@ == if leases == 0 {
                "idle"@
            } else {
                "drop"@
            },
    {
        if self.error.is_some() {
            None
        } else if leases == 0 {
            Some("idle")
        } else {
            Some("drop")
        }
    }
}

/// A leased connection survives the end of its pool: a shutdown ends the actor at once only where
/// no lease is out, and else as soon as the last lease is given back, with no idle time.
pub proof fn leased_connection_survives_shutdown(state: ConnectionView, leases: usize)
    requires
        state.connected(),
        state.enabled(ConnectionEvent::ShutdownSignalled),
    ensures
        step_at(state, ConnectionEvent::ShutdownSignalled, leases).stop == (leases == 0),
        step_at(
            state_after(state, ConnectionEvent::ShutdownSignalled, leases),
            ConnectionEvent::LeasesReturned,
            0,
        ).stop,
        leases > 0 ==> !step_at(
            state_after(state, ConnectionEvent::ShutdownSignalled, leases),
            ConnectionEvent::LeasesReturned,
            leases,
        ).stop,
{
}

/// Between the return of the last lease and the next request the idle time runs, and a request in
/// time gets the connection and ends it.
pub proof fn idle_connection_is_reused(state: ConnectionView)
    requires
        state.connected(),
        !state.shutdown_pending,
    ensures
        ({
            let idle = state_after(state, ConnectionEvent::LeasesReturned, 0);
            let request = ConnectionEvent::Request { already_closed: false };
            &&& idle.enabled(ConnectionEvent::IdleElapsed)
            &&& step_at(idle, request, 0).reply == Some(LeaseReply::Grant)
            &&& !state_after(idle, request, 0).enabled(ConnectionEvent::IdleElapsed)
        }),
{
}

/// A failed attempt to connect is what every request is answered, without end.
pub proof fn failed_connection_refuses(
    state: ConnectionView,
    already_closed: bool,
    leases: usize,
)
    requires
        !state.connected(),
    ensures
        ({
            let request = ConnectionEvent::Request { already_closed };
            &&& step_at(state, request, leases).reply == Some(
                LeaseReply::Refuse(state.error->0),
            )
            &&& !step_at(state, request, leases).stop
            &&& state_after(state, request, leases) == state
        }),
{
}

/// Counts the leases of a connection.
#[derive(Debug)]
pub struct ConnectionCounter {
    count: usize,
}

impl View for ConnectionCounter {
    type V = nat;

    closed spec fn view(&self) -> nat {
        self.count as nat
    }
}

impl ConnectionCounter {
    /// The counter without leases.
    pub fn new() -> (r: ConnectionCounter)
        ensures
            r@ == 0,
    {
        ConnectionCounter { count: 0 }
    }

    /// How many leases are out.
    pub fn current(&self) -> (r: usize)
        ensures
            r == self@,
    {
        self.count
    }

    /// Whether no lease is out.
    pub fn is_idle(&self) -> (r: bool)
        ensures
            r == (self@ == 0),
    {
        self.count == 0
    }

    /// One more lease is out.
    pub fn get_one(&mut self)
        requires
            old(self)@ < usize::MAX,
        ensures
            final(self)@ == old(self)@ + 1,
    {
        self.count = self.count + 1;
    }

    /// A lease was given back. Tells whether it was the last, so that the connection's actor is to
    /// be told.
    pub fn give_back(&mut self) -> (r: bool)
        requires
            old(self)@ > 0,
        ensures
            final(self)@ == old(self)@ - 1,
            r == (final(self)@ == 0),
    {
        self.count = self.count - 1;
        self.count == 0
    }
}

/// An open connection is leased to everyone who asks, however many leases are out, whether or not it
/// was idle, and even while the pool shuts down; it is then not idle, and does not end. One that is
/// found closed is refused as closed, reported to the pool, and ends.
pub proof fn open_connection_is_leased_to_all(state: ConnectionView, leases: usize)
    requires
        state.error is None,
    ensures
        ({
            let open = ConnectionEvent::Request { already_closed: false };
            let step = step_at(state, open, leases);
            let after = state_after(state, open, leases);
            &&& state.enabled(open)
            &&& step.reply == Some(LeaseReply::Grant)
            &&& step.report is None
            &&& !step.start_idle_timer
            &&& !step.stop
            &&& after.error is None
            &&& !after.idle_active
            &&& after.shutdown_pending == state.shutdown_pending
            // The next one who asks is answered alike, with one lease more.
            &&& leases < usize::MAX ==> step_at(after, open, (leases + 1) as usize).reply == Some(
                LeaseReply::Grant,
            )
        }),
        ({
            let closed = ConnectionEvent::Request { already_closed: true };
            let step = step_at(state, closed, leases);
            &&& step.reply == Some(LeaseReply::Refuse(PoolError::Closed))
            &&& step.report == Some(ConnectionReport::Shutdown)
            &&& step.stop
        }),
{
}

/// What a request is answered, and whether it ends the connection, does not depend on the leases
/// that are out.
pub proof fn leases_do_not_change_the_answer(
    state: ConnectionView,
    already_closed: bool,
    leases1: usize,
    leases2: usize,
)
    ensures
        ({
            let request = ConnectionEvent::Request { already_closed };
            &&& step_at(state, request, leases1) == step_at(state, request, leases2)
            &&& state_after(state, request, leases1) == state_after(state, request, leases2)
            &&& step_at(state, request, leases1).reply is Some
        }),
{
}

/// Only requests are answered, and only the return of the last lease to a pool that still runs makes
/// a connection idle: it is then reported, and the idle time begins.
pub proof fn idle_begins_with_the_last_lease(
    state: ConnectionView,
    event: ConnectionEvent,
    leases: usize,
)
    ensures
        step_at(state, event, leases).reply is Some <==> event is Request,
        step_at(state, event, leases).start_idle_timer <==> event is LeasesReturned && leases == 0
            && !state.shutdown_pending,
        step_at(state, event, leases).report == Some(ConnectionReport::Idle) <==> event
            is LeasesReturned && leases == 0 && !state.shutdown_pending,
        event is LeasesReturned && leases > 0 ==> state_after(state, event, leases) == state
            && !step_at(state, event, leases).stop,
{
}

/// A connection ends when it closes, idles out or can no longer be asked for, whatever leases are
/// out; a shutdown ends it once no lease is out. Closing and idling out are reported to the pool.
pub proof fn connection_ends(state: ConnectionView, leases: usize)
    ensures
        step_at(state, ConnectionEvent::Closed, leases).stop,
        step_at(state, ConnectionEvent::Closed, leases).report == Some(ConnectionReport::Shutdown),
        step_at(state, ConnectionEvent::IdleElapsed, leases).stop,
        step_at(state, ConnectionEvent::IdleElapsed, leases).report == Some(
            ConnectionReport::Shutdown,
        ),
        step_at(state, ConnectionEvent::MailboxClosed, leases).stop,
        step_at(state, ConnectionEvent::MailboxClosed, leases).report is None,
        step_at(state, ConnectionEvent::ShutdownSignalled, leases).stop <==> leases == 0,
        step_at(state, ConnectionEvent::LeasesReturned, leases).stop <==> leases == 0
            && state.shutdown_pending,
{
}

/// What a connection's actor remembers: why it has no connection, for good; that the pool was shut
/// down, for good; and that it is idle, from the return of the last lease to the next lease.
pub proof fn connection_remembers(state: ConnectionView, event: ConnectionEvent, leases: usize)
    ensures
        state_after(state, event, leases).error == state.error,
        state_after(state, event, leases).shutdown_pending <==> state.shutdown_pending || event
            is ShutdownSignalled,
        state_after(state, event, leases).idle_active <==> (event is LeasesReturned && leases == 0
            && !state.shutdown_pending) || (state.idle_active && !(event is Request
            && state.error is None && event == (ConnectionEvent::Request {
            already_closed: false,
        }))),
{
}

/// What a connection's actor waits for: the shutdown until it comes, the end of the idle time while
/// it runs, the end of the connection and the return of leases while there is a connection, and
/// requests at all times.
pub proof fn connection_waits_for(state: ConnectionView, already_closed: bool)
    ensures
        state.enabled(ConnectionEvent::ShutdownSignalled) <==> !state.shutdown_pending,
        state.enabled(ConnectionEvent::IdleElapsed) <==> state.idle_active,
        state.enabled(ConnectionEvent::Closed) <==> state.error is None,
        state.enabled(ConnectionEvent::LeasesReturned) <==> state.error is None,
        state.enabled(ConnectionEvent::Request { already_closed }),
        state.enabled(ConnectionEvent::MailboxClosed),
{
}

} // verus!
