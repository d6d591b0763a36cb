//! Locator: races connection attempts to discovered peers.

use super::discovery::Peer;
use crate::error::Error;
use crate::keys::EndpointId;
use crate::pool::PoolOptions;
use crate::text::joined_texts;
use crate::time::{duration_of_secs, secs};
use std::time::Duration;
use vstd::prelude::*;
use vstd::string::*;

verus! {

/// Configuration for connection racing.
#[derive(Debug)]
pub struct LocatorConfig {
    /// Maximum simultaneous connection attempts.
    pub max_inflight: usize,
    /// Timeout for each individual attempt.
    pub timeout_each: Duration,
    /// Overall timeout for the locator.
    pub timeout: Option<Duration>,
    /// Buffer size for successful connections.
    pub limit: usize,
}

impl Clone for LocatorConfig {
    fn clone(&self) -> (r: LocatorConfig)
        ensures
            r == *self,
    {
        LocatorConfig {
            max_inflight: self.max_inflight,
            timeout_each: self.timeout_each,
            timeout: self.timeout,
            limit: self.limit,
        }
    }
}

impl Default for LocatorConfig {
    fn default() -> (r: LocatorConfig)
        ensures
            r.max_inflight == 8,
            r.timeout_each == duration_of_secs(2),
            r.timeout is None,
            r.limit == 4,
    {
        LocatorConfig { max_inflight: 8, timeout_each: secs(2), timeout: None, limit: 4 }
    }
}

/// The pool options for a locator that has no shared pool: a connection may take as long as an
/// attempt.
pub fn pool_options_for(opts: &LocatorConfig) -> (r: PoolOptions)
    ensures
        r.connect_timeout == opts.timeout_each,
        r.idle_timeout == duration_of_secs(10),
        r.max_connections == 1024,
{
    let defaults = PoolOptions::default();
    PoolOptions {
        idle_timeout: defaults.idle_timeout,
        connect_timeout: opts.timeout_each,
        max_connections: defaults.max_connections,
    }
}

/// The error of an attempt that took too long, with the timeout as text.
pub fn attempt_timed_out(timeout: &str) -> (r: Error)
    ensures
        r is Connection,
        r->Connection_0@ == "connection timed out after "@ + timeout@,
{
    Error::connection(joined_texts("connection timed out after ", timeout))
}

/// The error where no peer was found at all.
pub fn no_peers_reachable() -> (r: Error)
    ensures
        r is Connection,
        r->Connection_0@ == "no peers reachable"@,
{
    Error::connection(String::from_str("no peers reachable"))
}

/// The wait for the first success: errors are passed over, and the last one is remembered.
pub struct FirstSuccess<X> {
    last_error: Option<X>,
}

impl<X> FirstSuccess<X> {
    /// The last error so far.
    pub closed spec fn last(self) -> Option<X> {
        self.last_error
    }

    /// Before any result.
    pub fn new() -> (r: FirstSuccess<X>)
        ensures
            r.last() is None,
    {
        FirstSuccess { last_error: None }
    }

    /// Takes in a result. Gives the success, if it is one.
    pub fn on_result<C>(&mut self, result: Result<C, X>) -> (r: Option<C>)
        ensures
            match result {
                Ok(channel) => r == Some(channel) && final(self).last() == old(self).last(),
                Err(e) => r is None && final(self).last() == Some(e),
            },
    {
        match result {
            Ok(channel) => Some(channel),
            Err(e) => {
                self.last_error = Some(e);
                None
            },
        }
    }

    /// The error where no success came: the last one, or the given one where there was none.
    pub fn into_error(self, without_results: X) -> (r: X)
        ensures
            r == match self.last() {
                Some(e) => e,
                None => without_results,
            },
    {
        match self.last_error {
            Some(e) => e,
            None => without_results,
        }
    }
}

/// The first success among results that came one after the other. Where there is none, the last
/// error, or that no peer could be reached.
///
/// # Errors
///
/// Returns an error if no peer could be reached.
pub fn first<C>(results: Vec<Result<C, Error>>) -> (r: Result<C, Error>)
    ensures
        match r {
            Ok(channel) => exists|i: int|
                {
                    &&& 0 <= i < results.len()
                    &&& #[trigger] results@[i] == Ok::<C, Error>(channel)
                    &&& forall|j: int| 0 <= j < i ==> (#[trigger] results@[j]) is Err
                },
            Err(e) => {
                &&& forall|j: int| 0 <= j < results.len() ==> (#[trigger] results@[j]) is Err
                &&& if results.len() > 0 {
                    results@.last() == Err::<C, Error>(e)
                } else {
                    e is Connection && e->Connection_0@ == "no peers reachable"@
                }
            },
        },
{
    let ghost all = results@;
    let mut rest = results;
    let mut wait = FirstSuccess::new();
    let ghost mut done: int = 0;
    assert(all.skip(0) =~= all);
    while rest.len() > 0
        invariant
            0 <= done <= all.len(),
            rest@ == all.skip(done),
            forall|j: int| 0 <= j < done ==> (#[trigger] all[j]) is Err,
            done == 0 ==> wait.last() is None,
            done > 0 ==> wait.last() is Some && all[done - 1] == Err::<C, Error>(wait.last()->0),
            all == results@,
        decreases rest.len(),
    {
        let result = rest.remove(0);
        assert(result == all[done]);
        assert(rest@ =~= all.skip(done + 1));
        match wait.on_result(result) {
            Some(channel) => {
                return Ok(channel);
            },
            None => {},
        }
        proof {
            done = done + 1;
        }
    }
    Err(wait.into_error(no_peers_reachable()))
}

/// What a locator does after its peer stream answered.
pub enum PeerStep<X> {
    /// Start an attempt to connect to the peer.
    Attempt(EndpointId),
    /// Pass the error on to whoever waits for channels.
    Forward(X),
    /// Nothing.
    Nothing,
}

/// The content of a locator's state.
pub ghost struct RaceView {
    /// How many attempts run.
    pub inflight: nat,
    /// How many may run.
    pub max_inflight: nat,
    /// Whether the peer stream is at its end.
    pub exhausted: bool,
}

impl RaceView {
    /// No more attempts run than may.
    pub open spec fn within_limit(self) -> bool {
        self.inflight <= self.max_inflight
    }

    /// Another peer is asked for.
    pub open spec fn discovers(self) -> bool {
        !self.exhausted && self.inflight < self.max_inflight
    }

    /// There is nothing left to do.
    pub open spec fn finished(self) -> bool {
        !self.discovers() && self.inflight == 0
    }
}

/// A locator's race: how many attempts run, and whether peers may still come.
pub struct LocatorState {
    inflight: usize,
    max_inflight: usize,
    stream_exhausted: bool,
}

impl View for LocatorState {
    type V = RaceView;

    closed spec fn view(&self) -> RaceView {
        RaceView {
            inflight: self.inflight as nat,
            max_inflight: self.max_inflight as nat,
            exhausted: self.stream_exhausted,
        }
    }
}

impl LocatorState {
    /// Before the first peer.
    pub fn new(opts: &LocatorConfig) -> (r: LocatorState)
        ensures
            r@ == (RaceView {
                inflight: 0,
                max_inflight: opts.max_inflight as nat,
                exhausted: false,
            }),
            r@.within_limit(),
    {
        LocatorState { inflight: 0, max_inflight: opts.max_inflight, stream_exhausted: false }
    }

    /// Whether another peer is asked for.
    pub fn can_discover(&self) -> (r: bool)
        ensures
            r == self@.discovers(),
    {
        !self.stream_exhausted && self.inflight < self.max_inflight
    }

    /// Whether an attempt runs.
    pub fn has_inflight(&self) -> (r: bool)
        ensures
            r == (self@.inflight > 0),
    {
        self.inflight > 0
    }

    /// Whether the race is over.
    pub fn is_finished(&self) -> (r: bool)
        ensures
            r == self@.finished(),
    {
        !self.can_discover() && !self.has_inflight()
    }

    /// An attempt ended; its result is passed on to whoever waits for channels.
    pub fn on_attempt_done(&mut self)
        requires
            old(self)@.inflight > 0,
            old(self)@.within_limit(),
        ensures
            final(self)@ == (RaceView {
                inflight: (old(self)@.inflight - 1) as nat,
                ..old(self)@
            }),
            final(self)@.within_limit(),
    {
        self.inflight = self.inflight - 1;
    }

    /// The peer stream answered: with a peer, an error, or its end.
    pub fn on_peer<X>(&mut self, next: Option<Result<Peer, X>>) -> (r: PeerStep<X>)
        requires
            old(self)@.discovers(),
        ensures
            match next {
                Some(Ok(peer)) => r == PeerStep::<X>::Attempt(peer.found().id) && final(self)@ == (
                RaceView { inflight: old(self)@.inflight + 1, ..old(self)@ }),
                Some(Err(e)) => r == PeerStep::Forward(e) && final(self)@ == old(self)@,
                None => r is Nothing && final(self)@ == (RaceView {
                    exhausted: true,
                    ..old(self)@
                }),
            },
            final(self)@.within_limit(),
    {
        match next {
            Some(Ok(peer)) => {
                self.inflight = self.inflight + 1;
                PeerStep::Attempt(peer.id())
            },
            Some(Err(e)) => PeerStep::Forward(e),
            None => {
                self.stream_exhausted = true;
                PeerStep::Nothing
            },
        }
    }
}

/// A race asks for peers exactly while there may be more and there is room for another attempt, and
/// is over exactly when no attempt runs and no peer is asked for.
pub proof fn race_uses_all_its_room(race: RaceView)
    requires
        race.within_limit(),
    ensures
        race.inflight <= race.max_inflight,
        race.discovers() <==> !race.exhausted && race.inflight < race.max_inflight,
        race.finished() <==> race.inflight == 0 && (race.exhausted || race.max_inflight == 0),
        !race.finished() && !race.discovers() ==> race.inflight > 0,
{
}

} // verus!
