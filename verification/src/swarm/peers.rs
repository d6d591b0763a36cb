//! Peer feeds: static lists, peer exchange, mDNS and DHT.

use super::dht::DHT_SHARD_COUNT;
use super::discovery::{peer_list, DiscoveredPeer};
use super::record::{signed_ads, SignedAdView, SignedServiceAd};
use crate::keys::{is_endpoint_key, EndpointId};
use crate::octets::{all_required_texts_are_present, copy_bytes, copy_texts, has_all_texts};
use crate::octets::{same_bytes, texts};
use crate::user_data::{alpn_match, alpns_text, classify_user_data_alpn, UserData, UserDataAlpnMatch};
use vstd::prelude::*;

verus! {

/// Scope for feed applicability.
#[derive(Debug, PartialEq, Eq)]
pub enum Scope {
    /// Applies to all services.
    Any,
    /// Applies only to a specific service ALPN.
    Service(Vec<u8>),
}

impl View for Scope {
    type V = Option<Seq<u8>>;

    /// The only service that the scope covers, or none where it covers all.
    open spec fn view(&self) -> Option<Seq<u8>> {
        match self {
            Scope::Any => None,
            Scope::Service(alpn) => Some(alpn@),
        }
    }
}

impl Clone for Scope {
    fn clone(&self) -> (r: Scope)
        ensures
            r@ == self@,
    {
        match self {
            Scope::Any => Scope::Any,
            Scope::Service(alpn) => Scope::Service(copy_bytes(alpn.as_slice())),
        }
    }
}

/// The scope covers the service.
pub open spec fn scope_covers(scope: Scope, alpn: Seq<u8>) -> bool {
    scope@ is None || scope@ == Some(alpn)
}

/// Check if a scope applies to an ALPN.
#[must_use]
pub fn scope_matches(scope: &Scope, alpn: &[u8]) -> (r: bool)
    ensures
        r == scope_covers(*scope, alpn@),
        r == match *scope {
            Scope::Any => true,
            Scope::Service(service) => service@ == alpn@,
        },
{
    match scope {
        Scope::Any => true,
        Scope::Service(s) => same_bytes(s.as_slice(), alpn),
    }
}

/// Description of a peer feed (priority, trust, scope, and stream).
pub struct PeerFeedSpec<F> {
    /// Human-readable name for logging.
    pub name: &'static str,
    /// Lower values are polled first.
    pub priority: u8,
    /// Source/producer trust level (0 = none, 255 = full).
    pub trust: u8,
    /// Which services this feed applies to.
    pub scope: Scope,
    /// Stream yielding discovered peers.
    pub stream: F,
}

/// The peers of a list, each with the trust of the feed.
pub open spec fn trusted_peers(ids: Seq<EndpointId>, trust: u8) -> Seq<(Seq<u8>, u8)> {
    Seq::new(ids.len(), |i: int| (ids[i]@, trust))
}

/// Build a finite feed from static peers: they come in order, each with the feed's trust.
#[must_use]
pub fn static_feed(peers: Vec<EndpointId>, priority: u8, trust: u8, scope: Scope) -> (r:
    PeerFeedSpec<Vec<DiscoveredPeer>>)
    ensures
        r.name@ == "static"@,
        r.priority == priority,
        r.trust == trust,
        r.scope == scope,
        peer_list(r.stream@) == trusted_peers(peers@, trust),
{
    let mut stream: Vec<DiscoveredPeer> = Vec::new();
    let mut i: usize = 0;
    while i < peers.len()
        invariant
            i <= peers.len(),
            stream.len() == i,
            forall|j: int| 0 <= j < i ==> (#[trigger] stream@[j])@ == (peers@[j]@, trust),
        decreases peers.len() - i,
    {
        stream.push(DiscoveredPeer { id: peers[i], trust });
        i = i + 1;
    }
    assert(peer_list(stream@) =~= trusted_peers(peers@, trust));
    PeerFeedSpec { name: "static", priority, trust, scope, stream }
}

/// Build an mDNS feed scoped to a service ALPN.
#[must_use]
pub fn mdns_feed<F>(stream: F, alpn: Vec<u8>, priority: u8, trust: u8) -> (r: PeerFeedSpec<F>)
    ensures
        r.name@ == "mdns"@,
        r.priority == priority,
        r.trust == trust,
        r.scope == Scope::Service(alpn),
        r.stream == stream,
{
    PeerFeedSpec { name: "mdns", priority, trust, scope: Scope::Service(alpn), stream }
}

/// What an mDNS feed makes of a node in its network: a peer where the node announces the service,
/// and nothing where it announces others or nothing at all.
pub fn mdns_peer(
    id: EndpointId,
    user_data: Option<&UserData>,
    alpn: &[u8],
    trust: u8,
) -> (r: Option<DiscoveredPeer>)
    ensures
        r == if alpn_match(
            match user_data {
                Some(data) => Some(data@),
                None => None,
            },
            alpn@,
        ) is Match {
            Some(DiscoveredPeer { id, trust })
        } else {
            None
        },
        forall|announced: Seq<Seq<u8>>|
            user_data is Some && user_data->0@ == #[trigger] alpns_text(announced) ==> (r is Some
                <==> announced.contains(alpn@)),
{
    match classify_user_data_alpn(user_data, alpn) {
        UserDataAlpnMatch::Match => Some(DiscoveredPeer { id, trust }),
        UserDataAlpnMatch::Mismatch => None,
        UserDataAlpnMatch::Missing => None,
    }
}

/// Build a peer-exchange feed.
#[must_use]
pub fn peer_exchange_feed<F>(stream: F, priority: u8, trust: u8) -> (r: PeerFeedSpec<F>)
    ensures
        r.name@ == "peer-exchange"@,
        r.priority == priority,
        r.trust == trust,
        r.scope == Scope::Any,
        r.stream == stream,
{
    PeerFeedSpec { name: "peer-exchange", priority, trust, scope: Scope::Any, stream }
}

/// What a peer-exchange feed makes of a message: a peer, or nothing where messages were lost.
pub fn exchanged_peer(message: Option<EndpointId>, trust: u8) -> (r: Option<DiscoveredPeer>)
    ensures
        r == match message {
            Some(id) => Some(DiscoveredPeer { id, trust }),
            None => None,
        },
{
    match message {
        Some(id) => Some(DiscoveredPeer { id, trust }),
        None => None,
    }
}

/// Build a DHT feed (initial burst + periodic poll) for a service ALPN.
#[must_use]
pub fn dht_feed<F>(stream: F, alpn: Vec<u8>, priority: u8, trust: u8) -> (r: PeerFeedSpec<F>)
    ensures
        r.name@ == "dht"@,
        r.priority == priority,
        r.trust == trust,
        r.scope == Scope::Service(alpn),
        r.stream == stream,
{
    PeerFeedSpec { name: "dht", priority, trust, scope: Scope::Service(alpn), stream }
}

/// The ad names a peer that can be reached and has all required tags.
pub open spec fn ad_qualifies(ad: SignedAdView, required: Seq<Seq<char>>) -> bool {
    has_all_texts(ad.ad.tags, required) && is_endpoint_key(ad.ad.node_id)
}

/// The peers that a DHT feed finds in the ads of a shard.
pub open spec fn advertised_peers(
    ads: Seq<SignedAdView>,
    required: Seq<Seq<char>>,
    trust: u8,
) -> Seq<(Seq<u8>, u8)> {
    ads.filter(|ad: SignedAdView| ad_qualifies(ad, required)).map_values(
        |ad: SignedAdView| (ad.ad.node_id, trust),
    )
}

/// Select the peers among the ads of a shard that have all required tags.
pub fn peers_of_ads(ads: &[SignedServiceAd], required: &[String], trust: u8) -> (peers: Vec<
    DiscoveredPeer,
>)
    ensures
        peer_list(peers@) == advertised_peers(signed_ads(ads@), texts(required@), trust),
{
    let ghost all = signed_ads(ads@);
    let ghost wanted = texts(required@);
    let ghost qualifies = |ad: SignedAdView| ad_qualifies(ad, wanted);
    let ghost peer_of = |ad: SignedAdView| (ad.ad.node_id, trust);
    let mut peers: Vec<DiscoveredPeer> = Vec::new();
    let mut i: usize = 0;
    proof {
        reveal(Seq::filter);
        assert(all.take(0).filter(qualifies).map_values(peer_of) =~= Seq::empty());
        assert(peer_list(peers@) =~= Seq::empty());
    }
    while i < ads.len()
        invariant
            i <= ads.len(),
            all == signed_ads(ads@),
            wanted == texts(required@),
            qualifies == (|ad: SignedAdView| ad_qualifies(ad, wanted)),
            peer_of == (|ad: SignedAdView| (ad.ad.node_id, trust)),
            peer_list(peers@) == all.take(i as int).filter(qualifies).map_values(peer_of),
        decreases ads.len() - i,
    {
        let ghost passed = all.take(i as int).filter(qualifies);
        let ghost before = peer_list(peers@);
        let ghost ad = all[i as int];
        proof {
            reveal(Seq::filter);
            assert(all.take(i + 1).drop_last() =~= all.take(i as int));
            assert(all.take(i + 1).last() == ad);
        }
        if required.is_empty() || ads[i].has_tags(required) {
            match ads[i].endpoint_id() {
                Some(id) => {
                    peers.push(DiscoveredPeer { id, trust });
                    assert(passed.push(ad).map_values(peer_of) =~= passed.map_values(peer_of).push(
                        peer_of(ad),
                    ));
                    assert(peer_list(peers@) =~= before.push((ad.ad.node_id, trust)));
                },
                None => {},
            }
        }
        i = i + 1;
    }
    assert(all.take(i as int) =~= all);
    peers
}

/// Where a DHT feed stands: in its burst over the current and the previous minute, before the
/// first tick of its timer, waiting for a tick, querying after a tick, or at its end.
#[derive(Debug, Clone, Copy, PartialEq, Eq, Structural)]
pub enum DhtFeedPhase {
    /// Querying the current minute, at the start.
    BurstCurrent,
    /// Querying the previous minute, at the start.
    BurstPrevious,
    /// Passing over the first tick, since the burst has just queried.
    FirstTick,
    /// Waiting for the next tick.
    Waiting,
    /// Querying the current minute after a tick.
    Polling,
    /// At the end.
    Ended,
}

/// What a DHT feed does next.
#[derive(Debug, Clone, Copy, PartialEq, Eq, Structural)]
pub enum DhtFeedAction {
    /// Query every shard in the current minute moved by the offset.
    QueryShards(i64),
    /// Wait for a tick of the timer.
    AwaitTick,
    /// Nothing more.
    End,
}

impl DhtFeedPhase {
    /// What is done in the phase.
    pub open spec fn does(self) -> DhtFeedAction {
        match self {
            DhtFeedPhase::BurstCurrent => DhtFeedAction::QueryShards(0),
            DhtFeedPhase::BurstPrevious => DhtFeedAction::QueryShards(-1i64),
            DhtFeedPhase::FirstTick => DhtFeedAction::AwaitTick,
            DhtFeedPhase::Waiting => DhtFeedAction::AwaitTick,
            DhtFeedPhase::Polling => DhtFeedAction::QueryShards(0),
            DhtFeedPhase::Ended => DhtFeedAction::End,
        }
    }

    /// The phase after what is done in this one is done.
    pub open spec fn following(self) -> DhtFeedPhase {
        match self {
            DhtFeedPhase::BurstCurrent => DhtFeedPhase::BurstPrevious,
            DhtFeedPhase::BurstPrevious => DhtFeedPhase::FirstTick,
            DhtFeedPhase::FirstTick => DhtFeedPhase::Waiting,
            DhtFeedPhase::Waiting => DhtFeedPhase::Polling,
            DhtFeedPhase::Polling => DhtFeedPhase::Waiting,
            DhtFeedPhase::Ended => DhtFeedPhase::Ended,
        }
    }

    /// The phase after a query failed: a burst is cut short, and polling ends the feed.
    pub open spec fn after_failure(self) -> DhtFeedPhase {
        match self {
            DhtFeedPhase::BurstCurrent => DhtFeedPhase::FirstTick,
            DhtFeedPhase::BurstPrevious => DhtFeedPhase::FirstTick,
            _ => DhtFeedPhase::Ended,
        }
    }
}

/// All shards, in order.
pub open spec fn all_shards() -> Seq<u8> {
    Seq::new(DHT_SHARD_COUNT as nat, |i: int| i as u8)
}

/// The shards whose answers are awaited when the phase begins: all of them, where it queries.
pub open spec fn shards_asked(phase: DhtFeedPhase) -> Seq<u8> {
    if phase.does() is QueryShards {
        all_shards()
    } else {
        Seq::empty()
    }
}

/// All shards but the given one.
pub open spec fn other_than(shard: u8) -> spec_fn(u8) -> bool {
    |s: u8| s != shard
}

/// The shards without the given one.
pub open spec fn shards_without(shards: Seq<u8>, shard: u8) -> Seq<u8> {
    shards.filter(other_than(shard))
}

fn following_phase(phase: DhtFeedPhase) -> (r: DhtFeedPhase)
    ensures
        r == phase.following(),
{
    match phase {
        DhtFeedPhase::BurstCurrent => DhtFeedPhase::BurstPrevious,
        DhtFeedPhase::BurstPrevious => DhtFeedPhase::FirstTick,
        DhtFeedPhase::FirstTick => DhtFeedPhase::Waiting,
        DhtFeedPhase::Waiting => DhtFeedPhase::Polling,
        DhtFeedPhase::Polling => DhtFeedPhase::Waiting,
        DhtFeedPhase::Ended => DhtFeedPhase::Ended,
    }
}

fn shards_to_ask(phase: DhtFeedPhase) -> (shards: Vec<u8>)
    ensures
        shards@ == shards_asked(phase),
{
    let mut shards: Vec<u8> = Vec::new();
    let queries = match phase {
        DhtFeedPhase::BurstCurrent => true,
        DhtFeedPhase::BurstPrevious => true,
        DhtFeedPhase::Polling => true,
        _ => false,
    };
    if queries {
        let mut next: u8 = 0;
        while next < DHT_SHARD_COUNT
            invariant
                next <= DHT_SHARD_COUNT,
                shards@ == all_shards().take(next as int),
            decreases DHT_SHARD_COUNT - next,
        {
            shards.push(next);
            next = next + 1;
            assert(shards@ =~= all_shards().take(next as int));
        }
    }
    assert(shards@ =~= shards_asked(phase));
    shards
}

fn remove_shard(shards: &Vec<u8>, shard: u8) -> (left: Vec<u8>)
    ensures
        left@ == shards_without(shards@, shard),
{
    let ghost keep = other_than(shard);
    let mut left: Vec<u8> = Vec::new();
    let mut i: usize = 0;
    proof {
        reveal(Seq::filter);
        assert(shards@.take(0).filter(keep) =~= Seq::empty());
    }
    while i < shards.len()
        invariant
            i <= shards.len(),
            keep == other_than(shard),
            left@ == shards@.take(i as int).filter(keep),
        decreases shards.len() - i,
    {
        proof {
            reveal(Seq::filter);
            assert(shards@.take(i + 1).drop_last() =~= shards@.take(i as int));
        }
        if shards[i] != shard {
            left.push(shards[i]);
        }
        i = i + 1;
    }
    assert(shards@.take(i as int) =~= shards@);
    left
}

/// The course of a DHT feed: a burst over the current and the previous minute, then the current
/// minute at every tick but the first. Each query asks all shards and is over when all have
/// answered.
pub struct DhtFeed {
    required_tags: Vec<String>,
    trust: u8,
    phase: DhtFeedPhase,
    unanswered: Vec<u8>,
}

impl DhtFeed {
    /// Where the feed stands.
    pub closed spec fn stands(self) -> DhtFeedPhase {
        self.phase
    }

    /// The shards whose answers are awaited.
    pub closed spec fn awaited(self) -> Seq<u8> {
        self.unanswered@
    }

    /// The tags that a peer needs.
    pub closed spec fn required(self) -> Seq<Seq<char>> {
        texts(self.required_tags@)
    }

    /// The trust that the feed's peers get.
    pub closed spec fn peer_trust(self) -> u8 {
        self.trust
    }

    /// The feed at its start.
    pub fn new(required_tags: &[String], trust: u8) -> (r: DhtFeed)
        ensures
            r.stands() is BurstCurrent,
            r.awaited() == all_shards(),
            r.required() == texts(required_tags@),
            r.peer_trust() == trust,
    {
        DhtFeed {
            required_tags: copy_texts(required_tags),
            trust,
            phase: DhtFeedPhase::BurstCurrent,
            unanswered: shards_to_ask(DhtFeedPhase::BurstCurrent),
        }
    }

    /// What the feed does next.
    pub fn action(&self) -> (r: DhtFeedAction)
        ensures
            r == self.stands().does(),
    {
        match self.phase {
            DhtFeedPhase::BurstCurrent => DhtFeedAction::QueryShards(0),
            DhtFeedPhase::BurstPrevious => DhtFeedAction::QueryShards(-1),
            DhtFeedPhase::FirstTick => DhtFeedAction::AwaitTick,
            DhtFeedPhase::Waiting => DhtFeedAction::AwaitTick,
            DhtFeedPhase::Polling => DhtFeedAction::QueryShards(0),
            DhtFeedPhase::Ended => DhtFeedAction::End,
        }
    }

    /// The shards to ask: those whose answers are awaited.
    pub fn shards(&self) -> (r: Vec<u8>)
        ensures
            r@ == self.awaited(),
    {
        copy_bytes(self.unanswered.as_slice())
    }

    /// Goes on after a tick.
    pub fn on_tick(&mut self)
        requires
            old(self).stands().does() == DhtFeedAction::AwaitTick,
        ensures
            final(self).stands() == old(self).stands().following(),
            final(self).awaited() == shards_asked(final(self).stands()),
            final(self).required() == old(self).required(),
            final(self).peer_trust() == old(self).peer_trust(),
    {
        self.phase = following_phase(self.phase);
        self.unanswered = shards_to_ask(self.phase);
    }

    /// Takes in what a shard gave: the peers to yield, or the error to yield before the query is
    /// given up. The query is over, and the feed goes on, when no other shard's answer is awaited.
    pub fn on_shard<X>(&mut self, shard: u8, outcome: Result<Vec<SignedServiceAd>, X>) -> (r:
        Result<Vec<DiscoveredPeer>, X>)
        requires
            old(self).stands().does() is QueryShards,
        ensures
            final(self).required() == old(self).required(),
            final(self).peer_trust() == old(self).peer_trust(),
            match outcome {
                Ok(ads) => {
                    let left = shards_without(old(self).awaited(), shard);
                    &&& r is Ok
                    &&& peer_list(r->Ok_0@) == advertised_peers(
                        signed_ads(ads@),
                        old(self).required(),
                        old(self).peer_trust(),
                    )
                    &&& if left.len() > 0 {
                        final(self).stands() == old(self).stands() && final(self).awaited() == left
                    } else {
                        final(self).stands() == old(self).stands().following()
                            && final(self).awaited() == shards_asked(final(self).stands())
                    }
                },
                Err(e) => {
                    &&& r == Err::<Vec<DiscoveredPeer>, X>(e)
                    &&& final(self).stands() == old(self).stands().after_failure()
                    &&& final(self).awaited() == Seq::<u8>::empty()
                },
            },
    {
        match outcome {
            Ok(ads) => {
                let left = remove_shard(&self.unanswered, shard);
                if left.len() > 0 {
                    self.unanswered = left;
                } else {
                    self.phase = following_phase(self.phase);
                    self.unanswered = shards_to_ask(self.phase);
                }
                Ok(peers_of_ads(ads.as_slice(), self.required_tags.as_slice(), self.trust))
            },
            Err(e) => {
                self.phase = match self.phase {
                    DhtFeedPhase::BurstCurrent => DhtFeedPhase::FirstTick,
                    DhtFeedPhase::BurstPrevious => DhtFeedPhase::FirstTick,
                    _ => DhtFeedPhase::Ended,
                };
                self.unanswered = Vec::new();
                Err(e)
            },
        }
    }
}

/// The shards whose answers are still awaited after the given answers.
pub open spec fn awaited_after(asked: Seq<u8>, answered: Seq<u8>) -> Seq<u8>
    decreases answered.len(),
{
    if answered.len() == 0 {
        asked
    } else {
        shards_without(awaited_after(asked, answered.drop_last()), answered.last())
    }
}

proof fn lemma_awaited_after(asked: Seq<u8>, answered: Seq<u8>, shard: u8)
    ensures
        awaited_after(asked, answered).contains(shard) <==> asked.contains(shard)
            && !answered.contains(shard),
    decreases answered.len(),
{
    if answered.len() > 0 {
        let rest = answered.drop_last();
        let last = answered.last();
        let before = awaited_after(asked, rest);
        let after = awaited_after(asked, answered);
        let keep = other_than(last);
        lemma_awaited_after(asked, rest, shard);
        assert(answered.contains(shard) <==> rest.contains(shard) || shard == last) by {
            if answered.contains(shard) && shard != last {
                let i = choose|i: int| 0 <= i < answered.len() && answered[i] == shard;
                assert(rest[i] == shard);
            }
            if rest.contains(shard) {
                let i = choose|i: int| 0 <= i < rest.len() && rest[i] == shard;
                assert(answered[i] == shard);
            }
            assert(answered[answered.len() - 1] == last);
        }
        if after.contains(shard) {
            let k = choose|k: int| 0 <= k < after.len() && after[k] == shard;
            before.lemma_filter_pred(keep, k);
            before.lemma_filter_contains_rev(keep, shard);
        }
        if before.contains(shard) && shard != last {
            let i = choose|i: int| 0 <= i < before.len() && before[i] == shard;
            before.lemma_filter_contains(keep, i);
        }
    }
}

/// A query of a DHT feed is over exactly when every shard has answered.
pub proof fn dht_query_asks_every_shard(answered: Seq<u8>)
    ensures
        awaited_after(all_shards(), answered).len() == 0 <==> forall|shard: u8|
            shard < DHT_SHARD_COUNT ==> answered.contains(shard),
{
    let left = awaited_after(all_shards(), answered);
    if left.len() == 0 {
        assert forall|shard: u8| shard < DHT_SHARD_COUNT implies answered.contains(shard) by {
            lemma_awaited_after(all_shards(), answered, shard);
            assert(all_shards()[shard as int] == shard);
        }
    } else {
        let shard = left[0];
        assert(left.contains(shard));
        lemma_awaited_after(all_shards(), answered, shard);
        let i = choose|i: int| 0 <= i < all_shards().len() && all_shards()[i] == shard;
        assert(shard < DHT_SHARD_COUNT);
    }
}

/// A DHT feed queries the current and the previous minute before it waits, passes over the first
/// tick, and from then on queries the current minute once per tick.
pub proof fn dht_feed_course(start: DhtFeedPhase)
    requires
        start is BurstCurrent,
    ensures
        start.does() == DhtFeedAction::QueryShards(0),
        start.following().does() == DhtFeedAction::QueryShards(-1i64),
        start.following().following().does() == DhtFeedAction::AwaitTick,
        start.following().following().following().does() == DhtFeedAction::AwaitTick,
        ({
            let polling = start.following().following().following().following();
            &&& polling.does() == DhtFeedAction::QueryShards(0)
            &&& polling.following().does() == DhtFeedAction::AwaitTick
            &&& polling.following().following() == polling
        }),
{
}

/// A query that fails at the start does not keep a DHT feed from polling; one that fails later
/// ends it.
pub proof fn dht_feed_failures(phase: DhtFeedPhase)
    ensures
        phase is BurstCurrent || phase is BurstPrevious
            ==> phase.after_failure().following().following() is Polling,
        phase is Polling ==> phase.after_failure().does() == DhtFeedAction::End,
{
}

/// A DHT feed yields a peer for exactly the nodes that have an ad with all required tags.
pub proof fn dht_feed_yields_qualified_nodes(
    ads: Seq<SignedAdView>,
    required: Seq<Seq<char>>,
    trust: u8,
    node_id: Seq<u8>,
)
    ensures
        advertised_peers(ads, required, trust).contains((node_id, trust)) <==> exists|i: int|
            0 <= i < ads.len() && ad_qualifies(#[trigger] ads[i], required) && ads[i].ad.node_id
                == node_id,
{
    let qualifies = |ad: SignedAdView| ad_qualifies(ad, required);
    let kept = ads.filter(qualifies);
    let peers = advertised_peers(ads, required, trust);
    if peers.contains((node_id, trust)) {
        let k = choose|k: int| 0 <= k < peers.len() && peers[k] == (node_id, trust);
        ads.lemma_filter_pred(qualifies, k);
        ads.lemma_filter_contains_rev(qualifies, kept[k]);
        let i = choose|i: int| 0 <= i < ads.len() && ads[i] == kept[k];
        assert(ad_qualifies(ads[i], required) && ads[i].ad.node_id == node_id);
    }
    if exists|i: int|
        0 <= i < ads.len() && ad_qualifies(#[trigger] ads[i], required) && ads[i].ad.node_id
            == node_id {
        let i = choose|i: int|
            0 <= i < ads.len() && ad_qualifies(#[trigger] ads[i], required) && ads[i].ad.node_id
                == node_id;
        ads.lemma_filter_contains(qualifies, i);
        let k = choose|k: int| 0 <= k < kept.len() && kept[k] == ads[i];
        assert(peers[k] == (node_id, trust));
    }
}

/// A scope of one service covers that service and no other, whatever their lengths; the scope of any
/// service covers all.
pub proof fn scope_covers_its_service_alone(service: Vec<u8>, alpn: Seq<u8>)
    ensures
        scope_covers(Scope::Any, alpn),
        scope_covers(Scope::Service(service), service@),
        scope_covers(Scope::Service(service), alpn) ==> alpn == service@,
        alpn != service@ ==> !scope_covers(Scope::Service(service), alpn),
{
}

/// Two services that one scope of a single service covers are the same.
pub proof fn scope_tells_services_apart(scope: Scope, alpn1: Seq<u8>, alpn2: Seq<u8>)
    requires
        !(scope is Any),
        scope_covers(scope, alpn1),
        scope_covers(scope, alpn2),
    ensures
        alpn1 == alpn2,
{
}

/// A DHT feed yields a node exactly if one of the ads names it, the name is that of an endpoint, and
/// the ad has every single required tag. A node whose every ad lacks some required tag is not
/// yielded. What is yielded has the feed's trust.
pub proof fn dht_feed_yields_nodes_with_every_tag(
    ads: Seq<SignedAdView>,
    required: Seq<Seq<char>>,
    trust: u8,
    node_id: Seq<u8>,
)
    ensures
        advertised_peers(ads, required, trust).contains((node_id, trust)) <==> exists|i: int|
            {
                &&& 0 <= i < ads.len()
                &&& (#[trigger] ads[i]).ad.node_id == node_id
                &&& is_endpoint_key(node_id)
                &&& forall|tag: Seq<char>| #[trigger]
                    required.contains(tag) ==> ads[i].ad.tags.contains(tag)
            },
        forall|k: int|
            0 <= k < advertised_peers(ads, required, trust).len() ==> (
            #[trigger] advertised_peers(ads, required, trust)[k]).1 == trust,
        (forall|i: int|
            0 <= i < ads.len() && (#[trigger] ads[i]).ad.node_id == node_id ==> exists|
                tag: Seq<char>,
            | #[trigger]
                required.contains(tag) && !ads[i].ad.tags.contains(tag)) ==> !advertised_peers(
            ads,
            required,
            trust,
        ).contains((node_id, trust)),
{
    dht_feed_yields_qualified_nodes(ads, required, trust, node_id);
    assert forall|i: int| 0 <= i < ads.len() implies ad_qualifies(#[trigger] ads[i], required) == (
    is_endpoint_key(ads[i].ad.node_id) && forall|tag: Seq<char>| #[trigger]
        required.contains(tag) ==> ads[i].ad.tags.contains(tag)) by {
        all_required_texts_are_present(ads[i].ad.tags, required);
    }
}

/// A static feed yields its peers as they were given, each with the feed's trust.
pub proof fn static_feed_yields_its_peers(ids: Seq<EndpointId>, trust: u8, i: int)
    requires
        0 <= i < ids.len(),
    ensures
        trusted_peers(ids, trust).len() == ids.len(),
        trusted_peers(ids, trust)[i].0 == ids[i]@,
        trusted_peers(ids, trust)[i].1 == trust,
{
}

/// Whatever a DHT feed queries, it asks every shard, each once; while it does not query it asks none.
pub proof fn dht_feed_asks_each_shard_once(phase: DhtFeedPhase, shard: u8)
    ensures
        phase is BurstCurrent || phase is BurstPrevious || phase is Polling ==> (
        shards_asked(phase).contains(shard) <==> shard < DHT_SHARD_COUNT) && shards_asked(
            phase,
        ).len() == DHT_SHARD_COUNT && shards_asked(phase).no_duplicates(),
        phase is FirstTick || phase is Waiting || phase is Ended ==> shards_asked(phase).len() == 0,
{
    if shard < DHT_SHARD_COUNT {
        assert(all_shards()[shard as int] == shard);
    }
}

} // verus!
