//! Swarm engine: merges peer feeds with priority and deduplication.

use super::discovery::{DiscoveredPeer, Peer};
use super::peers::{scope_covers, scope_matches, PeerFeedSpec, Scope};
use crate::keys::EndpointId;
use crate::order::{is_stable_sort, lemma_filter_places, lemma_rearrangement_onto, stable_sort};
use crate::order::{stable_sort_is_determined, stably_placed, strict_weak_order};
use crate::peer_map::PeerSet;
use vstd::prelude::*;

verus! {

/// A tagged feed: a feed with the source metadata that its peers get.
pub struct TaggedFeed<F> {
    /// The name of the feed.
    pub name: &'static str,
    /// How far the feed is trusted.
    pub trust: u8,
    /// The feed.
    pub inner: F,
}

/// The feed with its metadata.
pub open spec fn tagged<F>(spec_of: PeerFeedSpec<F>) -> TaggedFeed<F> {
    TaggedFeed { name: spec_of.name, trust: spec_of.trust, inner: spec_of.stream }
}

impl<F> TaggedFeed<F> {
    /// Attach the feed's metadata to what it yields.
    pub fn tag<X>(&self, item: Result<DiscoveredPeer, X>) -> (r: Result<Peer, X>)
        ensures
            match item {
                Ok(discovered) => r is Ok && r->Ok_0.found() == discovered && r->Ok_0.feed()
                    == self.name && r->Ok_0.feed_trust() == self.trust,
                Err(e) => r == Err::<Peer, X>(e),
            },
    {
        match item {
            Ok(discovered) => Ok(Peer::new(discovered, self.name, self.trust)),
            Err(e) => Err(e),
        }
    }
}

/// The order of feeds: lower priority values first.
pub open spec fn priority_order<F>() -> spec_fn(PeerFeedSpec<F>, PeerFeedSpec<F>) -> bool {
    |a: PeerFeedSpec<F>, b: PeerFeedSpec<F>| a.priority < b.priority
}

/// The feeds that cover the service, with their metadata.
pub open spec fn in_scope<F>(feeds: Seq<PeerFeedSpec<F>>, alpn: Seq<u8>) -> Seq<TaggedFeed<F>> {
    feeds.filter(|feed: PeerFeedSpec<F>| scope_covers(feed.scope, alpn)).map_values(
        |feed: PeerFeedSpec<F>| tagged(feed),
    )
}

/// `chosen` are the feeds that cover the service, by priority; feeds of the same priority stay in
/// the order in which they were given.
pub open spec fn is_feed_choice<F>(
    feeds: Seq<PeerFeedSpec<F>>,
    alpn: Seq<u8>,
    chosen: Seq<TaggedFeed<F>>,
) -> bool {
    exists|sorted: Seq<PeerFeedSpec<F>>| #[trigger]
        is_stable_sort(feeds, sorted, priority_order()) && chosen == in_scope(sorted, alpn)
}

/// Choose the feeds that cover the service, by priority.
pub fn choose_feeds<F>(feeds: Vec<PeerFeedSpec<F>>, alpn: &[u8]) -> (chosen: Vec<TaggedFeed<F>>)
    ensures
        is_feed_choice(feeds@, alpn@, chosen@),
        exists|places: Seq<int>| drawn_from(feeds@, alpn@, chosen@, places),
{
    let ghost given = feeds@;
    let less = |a: &PeerFeedSpec<F>, b: &PeerFeedSpec<F>| -> (r: bool)
        ensures
            r == (a.priority < b.priority),
        { a.priority < b.priority };
    assert(strict_weak_order(priority_order::<F>()));
    let mut rest = stable_sort(feeds, less, Ghost(priority_order::<F>()));
    let ghost sorted = rest@;
    let ghost covers = |feed: PeerFeedSpec<F>| scope_covers(feed.scope, alpn@);
    let ghost tag_of = |feed: PeerFeedSpec<F>| tagged(feed);
    let ghost mut done: int = 0;
    let mut chosen: Vec<TaggedFeed<F>> = Vec::new();
    proof {
        reveal(Seq::filter);
        assert(sorted.take(0).filter(covers).map_values(tag_of) =~= Seq::empty());
        assert(sorted.skip(0) =~= sorted);
    }
    while rest.len() > 0
        invariant
            0 <= done <= sorted.len(),
            rest@ == sorted.skip(done),
            covers == (|feed: PeerFeedSpec<F>| scope_covers(feed.scope, alpn@)),
            tag_of == (|feed: PeerFeedSpec<F>| tagged(feed)),
            chosen@ == sorted.take(done).filter(covers).map_values(tag_of),
        decreases rest.len(),
    {
        let ghost passed = sorted.take(done).filter(covers);
        let ghost before = chosen@;
        let feed = rest.remove(0);
        proof {
            reveal(Seq::filter);
            assert(feed == sorted[done]);
            assert(sorted.take(done + 1).drop_last() =~= sorted.take(done));
            assert(sorted.take(done + 1).last() == feed);
            assert(rest@ =~= sorted.skip(done + 1));
        }
        if scope_matches(&feed.scope, alpn) {
            let ghost whole = feed;
            chosen.push(TaggedFeed { name: feed.name, trust: feed.trust, inner: feed.stream });
            assert(passed.push(whole).map_values(tag_of) =~= passed.map_values(tag_of).push(
                tag_of(whole),
            ));
        }
        proof {
            done = done + 1;
        }
    }
    assert(sorted.take(done) =~= sorted);
    assert(chosen@ == in_scope(sorted, alpn@));
    proof {
        let places = engine_draws_from_feeds_that_apply(given, alpn@, chosen@);
    }
    chosen
}

/// Merges the peers of several feeds: each peer once, and never the local node.
pub struct SwarmEngine {
    seen: PeerSet,
    local_id: EndpointId,
}

impl SwarmEngine {
    /// The peers that were yielded.
    pub closed spec fn yielded(self) -> Set<Seq<u8>> {
        self.seen@
    }

    /// The local node.
    pub closed spec fn local(self) -> Seq<u8> {
        self.local_id@
    }

    /// The state is well formed.
    pub closed spec fn wf(self) -> bool {
        self.seen.wf()
    }

    /// Build an engine for a specific ALPN using the provided feed specs, together with the feeds to
    /// draw from, in order.
    pub fn new<F>(local_id: EndpointId, alpn: &[u8], feeds: Vec<PeerFeedSpec<F>>) -> (r: (
        SwarmEngine,
        Vec<TaggedFeed<F>>,
    ))
        ensures
            r.0.wf(),
            r.0.local() == local_id@,
            r.0.yielded() == Set::<Seq<u8>>::empty(),
            is_feed_choice(feeds@, alpn@, r.1@),
            exists|places: Seq<int>| drawn_from(feeds@, alpn@, r.1@, places),
    {
        let ghost given = feeds@;
        let chosen = choose_feeds(feeds, alpn);
        proof {
            let places = engine_draws_from_feeds_that_apply(given, alpn@, chosen@);
            assert(drawn_from(given, alpn@, chosen@, places));
        }
        (SwarmEngine { seen: PeerSet::new(), local_id }, chosen)
    }

    /// Takes in what a feed yielded: an error is passed on, a peer only if it is neither the local
    /// node nor one that was yielded before.
    pub fn on_item<X>(&mut self, item: Result<Peer, X>) -> (r: Option<Result<Peer, X>>)
        requires
            old(self).wf(),
        ensures
            final(self).wf(),
            final(self).local() == old(self).local(),
            match item {
                Ok(peer) => {
                    let id = peer.found().id@;
                    let fresh = passes(old(self).local(), old(self).yielded(), id);
                    &&& r == if fresh {
                        Some(Ok::<Peer, X>(peer))
                    } else {
                        None
                    }
                    &&& final(self).yielded() == if fresh {
                        old(self).yielded().insert(id)
                    } else {
                        old(self).yielded()
                    }
                },
                Err(e) => r == Some(Err::<Peer, X>(e)) && final(self).yielded() == old(
                    self).yielded(),
            },
    {
        match item {
            Ok(peer) => {
                if peer.id().same(&self.local_id) {
                    return None;
                }
                if self.seen.insert(peer.id()) {
                    Some(Ok(peer))
                } else {
                    assert(self.seen@ =~= old(self).seen@);
                    None
                }
            },
            Err(e) => Some(Err(e)),
        }
    }
}

/// The peer is passed on: it is neither the local node nor one that was passed on before.
pub open spec fn passes(local: Seq<u8>, yielded: Set<Seq<u8>>, id: Seq<u8>) -> bool {
    id != local && !yielded.contains(id)
}

/// The peers that an engine passes on of those that its feeds yield.
pub open spec fn passed_on(local: Seq<u8>, ids: Seq<Seq<u8>>) -> Seq<Seq<u8>>
    decreases ids.len(),
{
    if ids.len() == 0 {
        Seq::empty()
    } else {
        let earlier = passed_on(local, ids.drop_last());
        if passes(local, earlier.to_set(), ids.last()) {
            earlier.push(ids.last())
        } else {
            earlier
        }
    }
}

/// An engine yields every remote peer of its feeds, each once, and never the local node.
pub proof fn engine_yields_each_remote_peer_once(local: Seq<u8>, ids: Seq<Seq<u8>>)
    ensures
        passed_on(local, ids).no_duplicates(),
        !passed_on(local, ids).contains(local),
        forall|id: Seq<u8>|
            id != local ==> (#[trigger] passed_on(local, ids).contains(id) <==> ids.contains(id)),
    decreases ids.len(),
{
    let all = passed_on(local, ids);
    if ids.len() > 0 {
        let rest = ids.drop_last();
        let last = ids.last();
        let earlier = passed_on(local, rest);
        engine_yields_each_remote_peer_once(local, rest);
        assert(earlier.to_set().contains(last) <==> earlier.contains(last));
        assert forall|id: Seq<u8>| id != local implies (#[trigger] all.contains(id)
            <==> ids.contains(id)) by {
            assert(rest.contains(id) || id == last <==> ids.contains(id)) by {
                if ids.contains(id) && id != last {
                    let i = choose|i: int| 0 <= i < ids.len() && ids[i] == id;
                    assert(rest[i] == id);
                }
                if rest.contains(id) {
                    let i = choose|i: int| 0 <= i < rest.len() && rest[i] == id;
                    assert(ids[i] == id);
                }
            }
            if earlier.contains(id) {
                let i = choose|i: int| 0 <= i < earlier.len() && earlier[i] == id;
                assert(all[i] == id);
            }
            if passes(local, earlier.to_set(), last) {
                assert(all[all.len() - 1] == last);
                if all.contains(id) && id != last {
                    let i = choose|i: int| 0 <= i < all.len() && all[i] == id;
                    assert(earlier[i] == id);
                }
            }
        }
        assert(!all.contains(local)) by {
            if all.contains(local) {
                let i = choose|i: int| 0 <= i < all.len() && all[i] == local;
                if i < earlier.len() {
                    assert(earlier[i] == local);
                }
            }
        }
        assert(all.no_duplicates()) by {
            assert forall|i: int, j: int|
                0 <= i < all.len() && 0 <= j < all.len() && i != j implies all[i] != all[j] by {
                if i < earlier.len() && j < earlier.len() {
                    assert(earlier[i] != earlier[j]);
                } else if i < earlier.len() {
                    assert(earlier.contains(earlier[i]));
                } else {
                    assert(earlier.contains(earlier[j]));
                }
            }
        }
    }
}

/// The peers that an engine passes on grow with each that passes, and are those it remembers.
pub proof fn engine_passes_on_step_by_step(local: Seq<u8>, ids: Seq<Seq<u8>>, id: Seq<u8>)
    ensures
        ({
            let so_far = passed_on(local, ids);
            let next = passed_on(local, ids.push(id));
            if passes(local, so_far.to_set(), id) {
                next == so_far.push(id) && next.to_set() == so_far.to_set().insert(id)
            } else {
                next == so_far
            }
        }),
{
    let so_far = passed_on(local, ids);
    assert(ids.push(id).drop_last() =~= ids);
    if passes(local, so_far.to_set(), id) {
        let next = so_far.push(id);
        assert forall|x: Seq<u8>| next.to_set().contains(x) <==> so_far.to_set().insert(
            id,
        ).contains(x) by {
            if next.contains(x) {
                let i = choose|i: int| 0 <= i < next.len() && next[i] == x;
                if i < so_far.len() {
                    assert(so_far[i] == x);
                }
            }
            if so_far.contains(x) {
                let i = choose|i: int| 0 <= i < so_far.len() && so_far[i] == x;
                assert(next[i] == x);
            }
            if x == id {
                assert(next[so_far.len() as int] == x);
            }
        }
        assert(next.to_set() =~= so_far.to_set().insert(id));
    }
}

/// Which feeds an engine draws from, and in which order, depends on the feeds and the service
/// alone.
pub proof fn feed_choice_is_determined<F>(
    feeds: Seq<PeerFeedSpec<F>>,
    alpn: Seq<u8>,
    chosen1: Seq<TaggedFeed<F>>,
    chosen2: Seq<TaggedFeed<F>>,
)
    requires
        is_feed_choice(feeds, alpn, chosen1),
        is_feed_choice(feeds, alpn, chosen2),
    ensures
        chosen1 == chosen2,
{
    let order = priority_order::<F>();
    assert(strict_weak_order(order));
    let sorted1 = choose|sorted: Seq<PeerFeedSpec<F>>| #[trigger]
        is_stable_sort(feeds, sorted, order) && chosen1 == in_scope(sorted, alpn);
    let sorted2 = choose|sorted: Seq<PeerFeedSpec<F>>| #[trigger]
        is_stable_sort(feeds, sorted, order) && chosen2 == in_scope(sorted, alpn);
    stable_sort_is_determined(feeds, sorted1, sorted2, order);
}

/// The feed applies to the service: to any, or to this very one.
pub open spec fn applies_to(scope: Scope, alpn: Seq<u8>) -> bool {
    match scope {
        Scope::Any => true,
        Scope::Service(service) => service@ == alpn,
    }
}

/// `chosen` are the feeds at `places`: each applies to the service, comes with its name and trust,
/// and stands behind those of lower priority value and those of the same that were given before it;
/// and every feed that applies is there.
pub open spec fn drawn_from<F>(
    feeds: Seq<PeerFeedSpec<F>>,
    alpn: Seq<u8>,
    chosen: Seq<TaggedFeed<F>>,
    places: Seq<int>,
) -> bool {
    &&& places.len() == chosen.len()
    &&& forall|k: int|
        0 <= k < chosen.len() ==> {
            &&& 0 <= #[trigger] places[k] < feeds.len()
            &&& applies_to(feeds[places[k]].scope, alpn)
            &&& chosen[k].name == feeds[places[k]].name
            &&& chosen[k].trust == feeds[places[k]].trust
            &&& chosen[k].inner == feeds[places[k]].stream
        }
    &&& forall|j: int, k: int|
        0 <= j < k < chosen.len() ==> {
            let a = feeds[#[trigger] places[j]];
            let b = feeds[#[trigger] places[k]];
            a.priority < b.priority || (a.priority == b.priority && places[j] < places[k])
        }
    &&& forall|i: int|
        0 <= i < feeds.len() && applies_to((#[trigger] feeds[i]).scope, alpn) ==> places.contains(i)
}

/// An engine draws from exactly the feeds that apply to its service, by priority, feeds of the same
/// priority in the order in which they were given. A feed of another service is not drawn from.
pub proof fn engine_draws_from_feeds_that_apply<F>(
    feeds: Seq<PeerFeedSpec<F>>,
    alpn: Seq<u8>,
    chosen: Seq<TaggedFeed<F>>,
) -> (places: Seq<int>)
    requires
        is_feed_choice(feeds, alpn, chosen),
    ensures
        drawn_from(feeds, alpn, chosen, places),
        forall|i: int|
            0 <= i < feeds.len() ==> (places.contains(i) <==> applies_to(
                (#[trigger] feeds[i]).scope,
                alpn,
            )),
{
    let order = priority_order::<F>();
    let sorted = choose|sorted: Seq<PeerFeedSpec<F>>| #[trigger]
        is_stable_sort(feeds, sorted, order) && chosen == in_scope(sorted, alpn);
    let from = choose|from: Seq<int>| stably_placed(feeds, sorted, from, order);
    let covers = |feed: PeerFeedSpec<F>| scope_covers(feed.scope, alpn);
    let kept = lemma_filter_places(sorted, covers);
    let places = Seq::new(kept.len(), |k: int| from[kept[k]]);
    assert forall|k: int| 0 <= k < chosen.len() implies {
        &&& 0 <= #[trigger] places[k] < feeds.len()
        &&& applies_to(feeds[places[k]].scope, alpn)
        &&& chosen[k].name == feeds[places[k]].name
        &&& chosen[k].trust == feeds[places[k]].trust
        &&& chosen[k].inner == feeds[places[k]].stream
    } by {
        assert(0 <= kept[k] < sorted.len());
        assert(sorted[kept[k]] == feeds[from[kept[k]]]);
    }
    assert forall|j: int, k: int| 0 <= j < k < chosen.len() implies {
        let a = feeds[#[trigger] places[j]];
        let b = feeds[#[trigger] places[k]];
        a.priority < b.priority || (a.priority == b.priority && places[j] < places[k])
    } by {
        assert(kept[j] < kept[k]);
        let x = sorted[kept[j]];
        let y = sorted[kept[k]];
        assert(x == feeds[places[j]] && y == feeds[places[k]]);
        assert(!order(y, x));
        if !order(x, y) {
            assert(from[kept[j]] < from[kept[k]]);
        }
    }
    assert forall|i: int| 0 <= i < feeds.len() && applies_to(
        (#[trigger] feeds[i]).scope,
        alpn,
    ) implies places.contains(i) by {
        lemma_rearrangement_onto(from, feeds.len(), i);
        let m = choose|m: int| 0 <= m < from.len() && from[m] == i;
        assert(sorted[m] == feeds[from[m]]);
        assert(covers(sorted[m]));
        let k = choose|k: int| 0 <= k < kept.len() && kept[k] == m;
        assert(places[k] == i);
    }
    assert forall|i: int| 0 <= i < feeds.len() && places.contains(i) implies applies_to(
        (#[trigger] feeds[i]).scope,
        alpn,
    ) by {
        let k = choose|k: int| 0 <= k < places.len() && places[k] == i;
        assert(applies_to(feeds[places[k]].scope, alpn));
    }
    places
}

} // verus!
