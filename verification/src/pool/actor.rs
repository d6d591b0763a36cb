//! The pool's own state: which peers have a connection, and which of those are idle.

use super::PoolError;
use crate::keys::EndpointId;
use crate::peer_map::PeerMap;
use std::collections::VecDeque;
use vstd::prelude::*;

verus! {

/// The connection of a peer: its generation, and how to reach the actor that runs it.
pub struct ConnectionSlot<T> {
    /// Tells the connection from earlier ones to the same peer.
    pub generation: u64,
    /// The mailbox of the connection's actor.
    pub tx: T,
}

/// The content of the pool's state.
pub ghost struct PoolView<T> {
    /// The connection of each peer that has one.
    pub connections: Map<Seq<u8>, ConnectionSlot<T>>,
    /// The idle connections, by peer and generation, longest idle first.
    pub idle: Seq<(Seq<u8>, u64)>,
    /// The generation of the next connection.
    pub next_generation: u64,
    /// The most connections that the pool holds.
    pub max_connections: nat,
}

/// The idle connections but for those of the peer.
pub open spec fn idle_without(idle: Seq<(Seq<u8>, u64)>, id: Seq<u8>) -> Seq<(Seq<u8>, u64)> {
    idle.filter(|entry: (Seq<u8>, u64)| entry.0 != id)
}

/// The peer is not among the idle ones.
pub open spec fn not_idle(idle: Seq<(Seq<u8>, u64)>, id: Seq<u8>) -> bool {
    forall|i: int| 0 <= i < idle.len() ==> (#[trigger] idle[i]).0 != id
}

/// The generation after the given one.
pub open spec fn generation_after(generation: u64) -> u64 {
    if generation == u64::MAX {
        0
    } else {
        (generation + 1) as u64
    }
}

impl<T> PoolView<T> {
    /// The pool keeps to its limit, and what it holds for idle is each peer's current connection,
    /// once.
    pub open spec fn consistent(self) -> bool {
        &&& self.connections.dom().finite()
        &&& self.connections.dom().len() <= self.max_connections
        &&& forall|i: int|
            0 <= i < self.idle.len() ==> self.is_current(
                (#[trigger] self.idle[i]).0,
                self.idle[i].1,
            )
        &&& forall|i: int, j: int|
            0 <= i < j < self.idle.len() ==> (#[trigger] self.idle[i]).0 != (
            #[trigger] self.idle[j]).0
    }

    /// The peer has a connection, of this generation.
    pub open spec fn is_current(self, id: Seq<u8>, generation: u64) -> bool {
        self.connections.contains_key(id) && self.connections[id].generation == generation
    }

    /// Every connection has a generation that was handed out before the next one.
    pub open spec fn generations_past(self) -> bool {
        forall|id: Seq<u8>| #[trigger]
            self.connections.contains_key(id) ==> self.connections[id].generation
                < self.next_generation
    }

    /// As many connections as the pool may hold.
    pub open spec fn is_full(self) -> bool {
        self.connections.dom().len() >= self.max_connections
    }

    /// Without the connection that has been idle for longest.
    pub open spec fn evicted(self) -> PoolView<T> {
        PoolView {
            connections: self.connections.remove(self.idle[0].0),
            idle: self.idle.drop_first(),
            ..self
        }
    }

    /// With a new connection to the peer.
    pub open spec fn opened(self, id: Seq<u8>, tx: T) -> PoolView<T> {
        PoolView {
            connections: self.connections.insert(
                id,
                ConnectionSlot { generation: self.next_generation, tx },
            ),
            next_generation: generation_after(self.next_generation),
            ..self
        }
    }

    /// Without the peer's connection.
    pub open spec fn removed(self, id: Seq<u8>) -> PoolView<T> {
        PoolView {
            connections: self.connections.remove(id),
            idle: idle_without(self.idle, id),
            ..self
        }
    }
}

spec fn idle_list(idle: Seq<(EndpointId, u64)>) -> Seq<(Seq<u8>, u64)> {
    Seq::new(idle.len(), |i: int| (idle[i].0@, idle[i].1))
}

/// What became of a request that was handed to a connection's actor.
pub enum ForwardOutcome {
    /// The actor has it.
    Sent,
    /// The actor is gone.
    Closed,
    /// The actor's mailbox is full.
    Full,
}

/// What is to be done with a request after it was handed to a connection's actor.
pub enum ForwardStep {
    /// Nothing.
    Done,
    /// Answer it with the error.
    Refuse(PoolError),
    /// Open a new connection for it.
    Open,
}

/// The state of the pool's actor.
pub struct PoolActor<T> {
    connections: PeerMap<ConnectionSlot<T>>,
    idle: VecDeque<(EndpointId, u64)>,
    next_generation: u64,
    max_connections: usize,
}

impl<T> View for PoolActor<T> {
    type V = PoolView<T>;

    closed spec fn view(&self) -> PoolView<T> {
        PoolView {
            connections: self.connections@,
            idle: idle_list(self.idle@),
            next_generation: self.next_generation,
            max_connections: self.max_connections as nat,
        }
    }
}

proof fn lemma_idle_without(idle: Seq<(Seq<u8>, u64)>, id: Seq<u8>)
    requires
        forall|i: int, j: int|
            0 <= i < j < idle.len() ==> (#[trigger] idle[i]).0 != (#[trigger] idle[j]).0,
    ensures
        not_idle(idle_without(idle, id), id),
        forall|i: int|
            0 <= i < idle_without(idle, id).len() ==> idle.contains(
                #[trigger] idle_without(idle, id)[i],
            ),
        forall|i: int, j: int|
            0 <= i < j < idle_without(idle, id).len() ==> (#[trigger] idle_without(
                idle,
                id,
            )[i]).0 != (#[trigger] idle_without(idle, id)[j]).0,
        not_idle(idle, id) ==> idle_without(idle, id) == idle,
    decreases idle.len(),
{
    reveal(Seq::filter);
    let keep = |entry: (Seq<u8>, u64)| entry.0 != id;
    if idle.len() > 0 {
        let rest = idle.drop_last();
        assert forall|i: int, j: int| 0 <= i < j < rest.len() implies (#[trigger] rest[i]).0 != (
        #[trigger] rest[j]).0 by {
            assert(idle[i].0 != idle[j].0);
        }
        lemma_idle_without(rest, id);
        let kept = idle_without(rest, id);
        let all = idle_without(idle, id);
        let last = idle.last();
        assert(all == if keep(last) { kept.push(last) } else { kept });
        assert forall|i: int| 0 <= i < all.len() implies idle.contains(#[trigger] all[i]) by {
            if i < kept.len() {
                assert(all[i] == kept[i]);
                assert(rest.contains(kept[i]));
                let k = choose|k: int| 0 <= k < rest.len() && rest[k] == kept[i];
                assert(idle[k] == all[i]);
            } else {
                assert(idle[idle.len() - 1] == all[i]);
            }
        }
        assert forall|i: int| 0 <= i < all.len() implies (#[trigger] all[i]).0 != id by {
            if i < kept.len() {
                assert(all[i] == kept[i]);
            }
        }
        assert forall|i: int, j: int| 0 <= i < j < all.len() implies (#[trigger] all[i]).0 != (
        #[trigger] all[j]).0 by {
            assert(all[i] == kept[i]);
            if j < kept.len() {
                assert(all[j] == kept[j]);
            } else {
                assert(rest.contains(kept[i]));
                let k = choose|k: int| 0 <= k < rest.len() && rest[k] == kept[i];
                assert(idle[k].0 != idle[idle.len() - 1].0);
            }
        }
        if not_idle(idle, id) {
            assert forall|i: int| 0 <= i < rest.len() implies (#[trigger] rest[i]).0 != id by {
                assert(idle[i].0 != id);
            }
            assert(idle[idle.len() - 1].0 != id);
            assert(all =~= idle);
        }
    } else {
        assert(idle_without(idle, id) =~= idle);
    }
}

impl<T> PoolActor<T> {
    /// The state is consistent.
    pub closed spec fn wf(&self) -> bool {
        self.connections.wf() && self@.consistent()
    }

    /// What a well-formed state keeps to.
    pub proof fn lemma_consistent(&self)
        requires
            self.wf(),
        ensures
            self@.consistent(),
    {
    }

    /// The state of a pool without connections.
    pub fn new(max_connections: usize) -> (r: PoolActor<T>)
        ensures
            r.wf(),
            r@ == (PoolView {
                connections: Map::<Seq<u8>, ConnectionSlot<T>>::empty(),
                idle: Seq::empty(),
                next_generation: 1,
                max_connections: max_connections as nat,
            }),
            r@.generations_past(),
    {
        let r = PoolActor {
            connections: PeerMap::new(),
            idle: VecDeque::new(),
            next_generation: 1,
            max_connections,
        };
        assert(r@.idle =~= Seq::empty());
        r
    }

    /// The mailbox of the actor that runs the peer's connection, if the peer has one.
    pub fn sender(&self, id: &EndpointId) -> (r: Option<&T>)
        requires
            self.wf(),
        ensures
            r is Some <==> self@.connections.contains_key(id@),
            r matches Some(tx) ==> *tx == self@.connections[id@].tx,
    {
        match self.connections.get(id) {
            Some(slot) => Some(&slot.tx),
            None => None,
        }
    }

    /// How many peers have a connection.
    pub fn connection_count(&self) -> (r: usize)
        requires
            self.wf(),
        ensures
            r == self@.connections.dom().len(),
            r <= self@.max_connections,
    {
        self.connections.len()
    }

    fn remove_idle(&mut self, id: &EndpointId)
        ensures
            final(self)@ == (PoolView {
                idle: idle_without(old(self)@.idle, id@),
                ..old(self)@
            }),
            final(self).connections == old(self).connections,
    {
        let ghost all = idle_list(self.idle@);
        let ghost keep = |entry: (Seq<u8>, u64)| entry.0 != id@;
        let mut kept: VecDeque<(EndpointId, u64)> = VecDeque::new();
        let mut i: usize = 0;
        proof {
            reveal(Seq::filter);
            assert(all.take(0).filter(keep) =~= Seq::empty());
            assert(idle_list(kept@) =~= Seq::empty());
        }
        while i < self.idle.len()
            invariant
                i <= self.idle.len(),
                all == idle_list(self.idle@),
                keep == (|entry: (Seq<u8>, u64)| entry.0 != id@),
                idle_list(kept@) == all.take(i as int).filter(keep),
            decreases self.idle.len() - i,
        {
            let ghost before = idle_list(kept@);
            let entry = self.idle[i];
            proof {
                reveal(Seq::filter);
                assert(all.take(i + 1).drop_last() =~= all.take(i as int));
                assert(all.take(i + 1).last() == (entry.0@, entry.1));
            }
            if !entry.0.same(id) {
                kept.push_back(entry);
                assert(idle_list(kept@) =~= before.push((entry.0@, entry.1)));
            }
            i = i + 1;
        }
        assert(all.take(i as int) =~= all);
        self.idle = kept;
    }

    fn matches_generation(&self, id: &EndpointId, generation: u64) -> (r: bool)
        requires
            self.connections.wf(),
        ensures
            r == self@.is_current(id@, generation),
    {
        match self.connections.get(id) {
            Some(slot) => slot.generation == generation,
            None => false,
        }
    }

    /// Begins to serve a request for the peer, which is then no longer idle. Tells whether the peer
    /// has a connection, to whose actor the request is to be handed.
    pub fn begin_request(&mut self, id: &EndpointId) -> (r: bool)
        requires
            old(self).wf(),
        ensures
            final(self).wf(),
            final(self)@ == (PoolView {
                idle: idle_without(old(self)@.idle, id@),
                ..old(self)@
            }),
            not_idle(final(self)@.idle, id@),
            r == old(self)@.connections.contains_key(id@),
            old(self)@.generations_past() ==> final(self)@.generations_past(),
    {
        let ghost before = self@;
        self.remove_idle(id);
        proof {
            lemma_idle_without(before.idle, id@);
            self.lemma_kept_current(before, id@);
        }
        self.connections.contains(id)
    }

    /// What is left of the idle connections is still current.
    proof fn lemma_kept_current(&self, before: PoolView<T>, id: Seq<u8>)
        requires
            before.consistent(),
            self.connections.wf(),
            self@ == (PoolView { idle: idle_without(before.idle, id), ..before }) || self@
                == before.removed(id),
        ensures
            self@.consistent(),
    {
        lemma_idle_without(before.idle, id);
        assert forall|i: int| 0 <= i < self@.idle.len() implies self@.is_current(
            (#[trigger] self@.idle[i]).0,
            self@.idle[i].1,
        ) by {
            assert(before.idle.contains(self@.idle[i]));
            let k = choose|k: int| 0 <= k < before.idle.len() && before.idle[k] == self@.idle[i];
            assert(before.is_current(before.idle[k].0, before.idle[k].1));
        }
    }

    /// Goes on after a request was handed to the actor of the peer's connection.
    pub fn forwarded(&mut self, id: &EndpointId, outcome: ForwardOutcome) -> (r: ForwardStep)
        requires
            old(self).wf(),
            not_idle(old(self)@.idle, id@),
        ensures
            final(self).wf(),
            match outcome {
                ForwardOutcome::Sent => r is Done && final(self)@ == old(self)@,
                ForwardOutcome::Full => r == ForwardStep::Refuse(PoolError::Busy) && final(self)@
                    == old(self)@,
                ForwardOutcome::Closed => r is Open && final(self)@ == old(self)@.removed(id@),
            },
            not_idle(final(self)@.idle, id@),
            old(self)@.generations_past() ==> final(self)@.generations_past(),
    {
        let ghost before = self@;
        match outcome {
            ForwardOutcome::Sent => ForwardStep::Done,
            ForwardOutcome::Full => ForwardStep::Refuse(PoolError::Busy),
            ForwardOutcome::Closed => {
                self.connections.remove(id);
                proof {
                    lemma_idle_without(before.idle, id@);
                    assert(self@ =~= before.removed(id@));
                    self.lemma_kept_current(before, id@);
                }
                ForwardStep::Open
            },
        }
    }

    fn evict_idle_connection(&mut self) -> (r: bool)
        requires
            old(self).wf(),
        ensures
            final(self).wf(),
            r == (old(self)@.idle.len() > 0),
            r ==> final(self)@ == old(self)@.evicted(),
            !r ==> final(self)@ == old(self)@,
    {
        let ghost before = self@;
        while self.idle.len() > 0
            invariant
                self.wf(),
                before == old(self)@,
                self@ == before,
                before.consistent(),
            ensures
                self.idle.len() == 0,
            decreases self.idle.len(),
        {
            let ghost entries = self.idle@;
            match self.idle.pop_front() {
                Some((id, generation)) => {
                    proof {
                        assert(idle_list(entries)[0] == (id@, generation));
                        assert(before.is_current(before.idle[0].0, before.idle[0].1));
                        assert(idle_list(self.idle@) =~= before.idle.drop_first());
                    }
                    if self.matches_generation(&id, generation) {
                        self.connections.remove(&id);
                        proof {
                            assert(self@ == before.evicted());
                            assert forall|i: int| 0 <= i < self@.idle.len() implies self@.is_current(
                                (#[trigger] self@.idle[i]).0,
                                self@.idle[i].1,
                            ) by {
                                assert(self@.idle[i] == before.idle[i + 1]);
                                assert(before.idle[0].0 != before.idle[i + 1].0);
                                assert(before.is_current(
                                    before.idle[i + 1].0,
                                    before.idle[i + 1].1,
                                ));
                            }
                            assert forall|i: int, j: int| 0 <= i < j < self@.idle.len() implies (
                            #[trigger] self@.idle[i]).0 != (#[trigger] self@.idle[j]).0 by {
                                assert(before.idle[i + 1].0 != before.idle[j + 1].0);
                            }
                        }
                        return true;
                    }
                },
                None => {},
            }
        }
        false
    }

    /// Opens a connection to a peer that has none, with the mailbox of the actor that will run it.
    /// Where the pool is full, the connection that has been idle for longest makes room.
    ///
    /// # Errors
    ///
    /// Returns `TooManyConnections` where the pool is full and no connection is idle.
    pub fn open_connection(&mut self, id: EndpointId, tx: T) -> (r: Result<u64, PoolError>)
        requires
            old(self).wf(),
            !old(self)@.connections.contains_key(id@),
            not_idle(old(self)@.idle, id@),
        ensures
            final(self).wf(),
            r is Ok <==> !old(self)@.is_full() || old(self)@.idle.len() > 0,
            match r {
                Ok(generation) => {
                    &&& generation == old(self)@.next_generation
                    &&& final(self)@ == if old(self)@.is_full() {
                        old(self)@.evicted().opened(id@, tx)
                    } else {
                        old(self)@.opened(id@, tx)
                    }
                },
                Err(e) => e == PoolError::TooManyConnections && final(self)@ == old(self)@,
            },
            old(self)@.generations_past() && old(self)@.next_generation < u64::MAX
                ==> final(self)@.generations_past(),
    {
        let ghost before = self@;
        if self.connections.len() >= self.max_connections {
            if !self.evict_idle_connection() {
                return Err(PoolError::TooManyConnections);
            }
        }
        let ghost roomy = self@;
        proof {
            if before.is_full() {
                assert(before.is_current(before.idle[0].0, before.idle[0].1));
                assert(before.idle[0].0 != id@);
                assert forall|i: int| 0 <= i < roomy.idle.len() implies (
                #[trigger] roomy.idle[i]).0 != id@ by {
                    assert(roomy.idle[i] == before.idle[i + 1]);
                }
            }
        }
        let generation: u64 = self.next_generation;
        self.next_generation = if generation == u64::MAX {
            0
        } else {
            generation + 1
        };
        self.connections.insert(id, ConnectionSlot { generation, tx });
        proof {
            assert(self@ == roomy.opened(id@, tx));
            assert(self@.connections.dom() =~= roomy.connections.dom().insert(id@));
            assert forall|i: int| 0 <= i < self@.idle.len() implies self@.is_current(
                (#[trigger] self@.idle[i]).0,
                self@.idle[i].1,
            ) by {
                assert(roomy.is_current(roomy.idle[i].0, roomy.idle[i].1));
            }
        }
        Ok(generation)
    }

    /// Takes note that nobody uses the peer's connection of the generation any more. A report on
    /// another connection than the peer's current one changes nothing.
    pub fn on_idle(&mut self, id: EndpointId, generation: u64)
        requires
            old(self).wf(),
        ensures
            final(self).wf(),
            final(self)@ == if old(self)@.is_current(id@, generation) {
                PoolView {
                    idle: idle_without(old(self)@.idle, id@).push((id@, generation)),
                    ..old(self)@
                }
            } else {
                old(self)@
            },
            old(self)@.generations_past() ==> final(self)@.generations_past(),
    {
        let ghost before = self@;
        if self.matches_generation(&id, generation) {
            self.remove_idle(&id);
            proof {
                lemma_idle_without(before.idle, id@);
                self.lemma_kept_current(before, id@);
            }
            let ghost rest = self@;
            self.idle.push_back((id, generation));
            proof {
                assert(idle_list(self.idle@) =~= rest.idle.push((id@, generation)));
                assert forall|i: int| 0 <= i < self@.idle.len() implies self@.is_current(
                    (#[trigger] self@.idle[i]).0,
                    self@.idle[i].1,
                ) by {
                    if i < rest.idle.len() {
                        assert(rest.is_current(rest.idle[i].0, rest.idle[i].1));
                    }
                }
                assert forall|i: int, j: int| 0 <= i < j < self@.idle.len() implies (
                #[trigger] self@.idle[i]).0 != (#[trigger] self@.idle[j]).0 by {
                    assert(rest.idle[i].0 != id@);
                    if j < rest.idle.len() {
                        assert(rest.idle[i].0 != rest.idle[j].0);
                    }
                }
            }
        }
    }

    /// Takes note that the peer's connection of the generation is gone. A report on another
    /// connection than the peer's current one changes nothing.
    pub fn on_shutdown(&mut self, id: EndpointId, generation: u64)
        requires
            old(self).wf(),
        ensures
            final(self).wf(),
            final(self)@ == if old(self)@.is_current(id@, generation) {
                old(self)@.removed(id@)
            } else {
                old(self)@
            },
            old(self)@.generations_past() ==> final(self)@.generations_past(),
    {
        let ghost before = self@;
        if self.matches_generation(&id, generation) {
            self.connections.remove(&id);
            self.remove_idle(&id);
            proof {
                assert(self@ =~= before.removed(id@));
                self.lemma_kept_current(before, id@);
            }
        }
    }

    /// Forgets all connections.
    pub fn clear(&mut self)
        requires
            old(self).wf(),
        ensures
            final(self).wf(),
            final(self)@ == (PoolView {
                connections: Map::<Seq<u8>, ConnectionSlot<T>>::empty(),
                idle: Seq::empty(),
                ..old(self)@
            }),
    {
        self.connections.clear();
        self.idle = VecDeque::new();
        assert(self@.idle =~= Seq::empty());
    }
}

/// A peer whose connection ended gets a newer one at its next request, so that late reports on the
/// old connection, which name its generation, no longer concern the pool.
pub proof fn reopened_connection_is_newer<T>(
    pool: PoolView<T>,
    id: Seq<u8>,
    generation: u64,
    tx: T,
)
    requires
        pool.is_current(id, generation),
        pool.generations_past(),
    ensures
        !pool.removed(id).connections.contains_key(id),
        pool.removed(id).opened(id, tx).connections[id].generation > generation,
        !pool.removed(id).opened(id, tx).is_current(id, generation),
{
}

/// Opening, evicting and dropping a connection concern one peer each. The new connection has the
/// mailbox and the generation that it was given, the evicted one is that of the peer that has been
/// idle for longest, and all other peers keep their connections.
pub proof fn pool_changes_one_peer_at_a_time<T>(
    pool: PoolView<T>,
    id: Seq<u8>,
    tx: T,
    other: Seq<u8>,
)
    requires
        other != id,
    ensures
        pool.opened(id, tx).connections.contains_key(id),
        pool.opened(id, tx).connections[id].tx == tx,
        pool.opened(id, tx).connections[id].generation == pool.next_generation,
        pool.opened(id, tx).idle == pool.idle,
        pool.next_generation < u64::MAX ==> pool.opened(id, tx).next_generation
            == pool.next_generation + 1,
        pool.opened(id, tx).max_connections == pool.max_connections,
        pool.opened(id, tx).connections.contains_key(other) <==> pool.connections.contains_key(other),
        pool.connections.contains_key(other) ==> pool.opened(id, tx).connections[other]
            == pool.connections[other],
        !pool.removed(id).connections.contains_key(id),
        pool.removed(id).next_generation == pool.next_generation,
        pool.removed(id).connections.contains_key(other) <==> pool.connections.contains_key(other),
        pool.connections.contains_key(other) ==> pool.removed(id).connections[other]
            == pool.connections[other],
        pool.idle.len() > 0 && pool.idle[0].0 == id ==> {
            &&& !pool.evicted().connections.contains_key(id)
            &&& pool.evicted().connections.contains_key(other) <==> pool.connections.contains_key(
                other,
            )
            &&& pool.connections.contains_key(other) ==> pool.evicted().connections[other]
                == pool.connections[other]
            &&& pool.evicted().idle.len() == pool.idle.len() - 1
            &&& forall|i: int|
                0 <= i < pool.idle.len() - 1 ==> pool.evicted().idle[i] == #[trigger] pool.idle[i + 1]
        },
{
}

/// The pool is full exactly when it holds as many connections as it may; a full pool makes room by
/// evicting an idle connection, so that a new one never takes it beyond its limit.
pub proof fn pool_never_exceeds_its_limit<T>(pool: PoolView<T>, id: Seq<u8>, tx: T)
    requires
        pool.consistent(),
        !pool.connections.contains_key(id),
    ensures
        pool.is_full() <==> pool.connections.dom().len() == pool.max_connections,
        !pool.is_full() ==> pool.opened(id, tx).connections.dom().len()
            == pool.connections.dom().len() + 1 && pool.opened(id, tx).connections.dom().len()
            <= pool.max_connections,
        pool.is_full() && pool.idle.len() > 0 ==> pool.evicted().opened(
            id,
            tx,
        ).connections.dom().len() == pool.max_connections,
{
    assert(pool.opened(id, tx).connections.dom() =~= pool.connections.dom().insert(id));
    if pool.idle.len() > 0 {
        let first = pool.idle[0].0;
        assert(pool.is_current(first, pool.idle[0].1));
        assert(pool.evicted().connections.dom() =~= pool.connections.dom().remove(first));
        assert(pool.evicted().opened(id, tx).connections.dom()
            =~= pool.evicted().connections.dom().insert(id));
    }
}

/// Only the reports on a peer's connection of the current generation concern the pool.
pub proof fn current_means_this_generation<T>(pool: PoolView<T>, id: Seq<u8>, g1: u64, g2: u64)
    ensures
        pool.is_current(id, g1) ==> pool.connections.contains_key(id)
            && pool.connections[id].generation == g1,
        pool.is_current(id, g1) && pool.is_current(id, g2) ==> g1 == g2,
        pool.connections.contains_key(id) ==> pool.is_current(id, pool.connections[id].generation),
        g1 < u64::MAX ==> generation_after(g1) == g1 + 1,
        g1 != g2 ==> generation_after(g1) != generation_after(g2),
{
}

/// A peer that is taken out of the idle ones is not among them; the others stay.
pub proof fn idle_without_keeps_the_others(
    idle: Seq<(Seq<u8>, u64)>,
    id: Seq<u8>,
    peer: Seq<u8>,
    generation: u64,
)
    ensures
        idle_without(idle, id).contains((peer, generation)) <==> idle.contains((peer, generation))
            && peer != id,
        not_idle(idle, id) <==> forall|i: int| 0 <= i < idle.len() ==> (#[trigger] idle[i]).0 != id,
    decreases idle.len(),
{
    reveal(Seq::filter);
    let entry = (peer, generation);
    if idle.len() > 0 {
        let rest = idle.drop_last();
        let last = idle.last();
        let kept = idle_without(rest, id);
        let all = idle_without(idle, id);
        idle_without_keeps_the_others(rest, id, peer, generation);
        assert(all == if last.0 != id {
            kept.push(last)
        } else {
            kept
        });
        if all.contains(entry) {
            let k = choose|k: int| 0 <= k < all.len() && all[k] == entry;
            if k < kept.len() {
                assert(kept[k] == entry);
                let i = choose|i: int| 0 <= i < rest.len() && rest[i] == entry;
                assert(idle[i] == entry);
            } else {
                assert(idle[idle.len() - 1] == entry);
            }
        }
        if idle.contains(entry) && peer != id {
            let i = choose|i: int| 0 <= i < idle.len() && idle[i] == entry;
            if i < rest.len() {
                assert(rest[i] == entry);
                let k = choose|k: int| 0 <= k < kept.len() && kept[k] == entry;
                assert(all[k] == entry);
            } else {
                assert(all[all.len() - 1] == entry);
            }
        }
    }
}

} // verus!
