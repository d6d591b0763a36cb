//! Helper to race connections against a discovery stream.
//!
//! It takes the peers that discovery yields and fans out a bounded number of connection attempts.

use super::locator::RaceView;
use crate::keys::EndpointId;
use crate::time::{duration_of_secs, secs};
use std::time::Duration;
use vstd::prelude::*;

verus! {

/// Options controlling concurrent connection attempts.
#[derive(Debug)]
pub struct ConnectOptions {
    /// Maximum simultaneous connection attempts.
    pub max_inflight: usize,
    /// Timeout for each individual attempt.
    pub per_attempt_timeout: Duration,
    /// Optional overall timeout for the entire race.
    pub overall_timeout: Option<Duration>,
    /// How many successful connections to buffer.
    pub success_buffer: usize,
}

impl Clone for ConnectOptions {
    fn clone(&self) -> (r: ConnectOptions)
        ensures
            r == *self,
    {
        ConnectOptions {
            max_inflight: self.max_inflight,
            per_attempt_timeout: self.per_attempt_timeout,
            overall_timeout: self.overall_timeout,
            success_buffer: self.success_buffer,
        }
    }
}

impl Default for ConnectOptions {
    fn default() -> (r: ConnectOptions)
        ensures
            r.max_inflight == 8,
            r.per_attempt_timeout == duration_of_secs(2),
            r.overall_timeout is None,
            r.success_buffer == 4,
    {
        ConnectOptions {
            max_inflight: 8,
            per_attempt_timeout: secs(2),
            overall_timeout: None,
            success_buffer: 4,
        }
    }
}

/// What a race does next.
#[derive(Debug, Clone, Copy, PartialEq, Eq, Structural)]
pub enum RaceStep {
    /// Ask for the next peer.
    AwaitPeer,
    /// Wait for an attempt to end.
    AwaitAttempt,
    /// Nothing more.
    Stop,
}

/// A race of connection attempts: it is first filled up with peers, and only then waits for an
/// attempt to end.
pub struct ConnectRace {
    inflight: usize,
    max_inflight: usize,
    stream_exhausted: bool,
}

impl View for ConnectRace {
    type V = RaceView;

    closed spec fn view(&self) -> RaceView {
        RaceView {
            inflight: self.inflight as nat,
            max_inflight: self.max_inflight as nat,
            exhausted: self.stream_exhausted,
        }
    }
}

/// What a race in the state does next.
pub open spec fn race_step(race: RaceView) -> RaceStep {
    if race.discovers() {
        RaceStep::AwaitPeer
    } else if race.inflight == 0 && race.exhausted {
        RaceStep::Stop
    } else {
        RaceStep::AwaitAttempt
    }
}

impl ConnectRace {
    /// Before the first peer.
    pub fn new(opts: &ConnectOptions) -> (r: ConnectRace)
        ensures
            r@ == (RaceView {
                inflight: 0,
                max_inflight: opts.max_inflight as nat,
                exhausted: false,
            }),
            r@.within_limit(),
    {
        ConnectRace { inflight: 0, max_inflight: opts.max_inflight, stream_exhausted: false }
    }

    /// What is done next.
    pub fn step(&self) -> (r: RaceStep)
        ensures
            r == race_step(self@),
    {
        if self.inflight < self.max_inflight && !self.stream_exhausted {
            RaceStep::AwaitPeer
        } else if self.inflight == 0 && self.stream_exhausted {
            RaceStep::Stop
        } else {
            RaceStep::AwaitAttempt
        }
    }

    /// The peer stream answered. Gives the peer to connect to, if it named one; an error is passed
    /// over.
    pub fn on_peer<X>(&mut self, next: Option<Result<EndpointId, X>>) -> (r: Option<EndpointId>)
        requires
            old(self)@.discovers(),
        ensures
            match next {
                Some(Ok(id)) => r == Some(id) && final(self)@ == (RaceView {
                    inflight: old(self)@.inflight + 1,
                    ..old(self)@
                }),
                Some(Err(_)) => r is None && final(self)@ == old(self)@,
                None => r is None && final(self)@ == (RaceView { exhausted: true, ..old(self)@ }),
            },
            final(self)@.within_limit(),
    {
        match next {
            Some(Ok(id)) => {
                self.inflight = self.inflight + 1;
                Some(id)
            },
            Some(Err(_)) => None,
            None => {
                self.stream_exhausted = true;
                None
            },
        }
    }

    /// An attempt ended, or none was there to wait for. Gives its result, which is passed on,
    /// whether success or error.
    pub fn on_attempt<C, X>(&mut self, ended: Option<Result<C, X>>) -> (r: Option<Result<C, X>>)
        requires
            old(self)@.within_limit(),
            ended is Some ==> old(self)@.inflight > 0,
        ensures
            r == ended,
            final(self)@ == if ended is Some {
                RaceView { inflight: (old(self)@.inflight - 1) as nat, ..old(self)@ }
            } else {
                old(self)@
            },
            final(self)@.within_limit(),
    {
        if ended.is_some() {
            self.inflight = self.inflight - 1;
        }
        ended
    }
}

/// A race that may run attempts at all waits for an attempt only while one runs, and stops exactly
/// when the peers are at their end and no attempt runs.
pub proof fn race_never_waits_in_vain(race: RaceView)
    requires
        race.within_limit(),
        race.max_inflight > 0,
    ensures
        race_step(race) == RaceStep::AwaitAttempt ==> race.inflight > 0,
        race_step(race) == RaceStep::Stop <==> race.finished(),
{
}

/// A race fills up first: it asks for a peer whenever there is room and there may be more, and waits
/// for an attempt only when it is full or the peers are at their end.
pub proof fn race_fills_up_first(race: RaceView)
    ensures
        race_step(race) == RaceStep::AwaitPeer <==> !race.exhausted && race.inflight
            < race.max_inflight,
        race_step(race) == RaceStep::Stop <==> race.exhausted && race.inflight == 0,
        race_step(race) == RaceStep::AwaitAttempt <==> (race.exhausted && race.inflight > 0) || (
        !race.exhausted && race.inflight >= race.max_inflight),
{
}

} // verus!
