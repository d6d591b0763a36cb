//! Unified discovery combining mDNS and DHT.
//!
//! Continuously yields peers as they are discovered from either source.

use super::engine::passes;
use super::peers::ad_qualifies;
use super::record::SignedServiceAd;
use crate::keys::EndpointId;
use crate::octets::{all_required_texts_are_present, copy_bytes, copy_texts, texts};
use crate::peer_map::PeerSet;
use crate::time::{duration_of_secs, secs};
use crate::user_data::{alpns_in, alpns_text, user_data_has_alpn, UserData};
use std::time::Duration;
use vstd::prelude::*;

verus! {

/// Options for unified discovery.
#[derive(Debug)]
pub struct DiscoveryOptions {
    /// DHT poll interval. Default: 60 seconds.
    pub dht_interval: Duration,
    /// Filter by required tags.
    pub required_tags: Vec<String>,
}

impl Clone for DiscoveryOptions {
    fn clone(&self) -> (r: DiscoveryOptions)
        ensures
            r.dht_interval == self.dht_interval,
            texts(r.required_tags@) == texts(self.required_tags@),
    {
        DiscoveryOptions {
            dht_interval: self.dht_interval,
            required_tags: copy_texts(self.required_tags.as_slice()),
        }
    }
}

impl Default for DiscoveryOptions {
    fn default() -> (r: DiscoveryOptions)
        ensures
            r.dht_interval == duration_of_secs(60),
            r.required_tags@ == Seq::<String>::empty(),
    {
        DiscoveryOptions { dht_interval: secs(60), required_tags: Vec::new() }
    }
}

/// What unified discovery does next.
#[derive(Debug, Clone, Copy, PartialEq, Eq, Structural)]
pub enum DiscoveryAction {
    /// Query the DHT in the current minute moved by the offset.
    QueryDht(i64),
    /// Pass over the first tick of the timer, since the DHT was just queried.
    SkipTick,
    /// Wait for an mDNS event or for a tick, whichever comes first.
    AwaitEvent,
}

/// Where unified discovery stands.
#[derive(Debug, Clone, Copy, PartialEq, Eq, Structural)]
pub enum DiscoveryPhase {
    /// Querying the current minute, at the start.
    InitialCurrent,
    /// Querying the previous minute, at the start.
    InitialPrevious,
    /// Before the first tick.
    FirstTick,
    /// Waiting for events.
    Waiting,
    /// Querying the current minute after a tick.
    Polling,
}

impl DiscoveryPhase {
    /// What is done in the phase.
    pub open spec fn does(self) -> DiscoveryAction {
        match self {
            DiscoveryPhase::InitialCurrent => DiscoveryAction::QueryDht(0),
            DiscoveryPhase::InitialPrevious => DiscoveryAction::QueryDht(-1i64),
            DiscoveryPhase::FirstTick => DiscoveryAction::SkipTick,
            DiscoveryPhase::Waiting => DiscoveryAction::AwaitEvent,
            DiscoveryPhase::Polling => DiscoveryAction::QueryDht(0),
        }
    }

    /// The phase after the DHT answered.
    pub open spec fn after_record(self) -> DiscoveryPhase {
        match self {
            DiscoveryPhase::InitialCurrent => DiscoveryPhase::InitialPrevious,
            DiscoveryPhase::InitialPrevious => DiscoveryPhase::FirstTick,
            _ => DiscoveryPhase::Waiting,
        }
    }

    /// The phase after a tick.
    pub open spec fn after_tick(self) -> DiscoveryPhase {
        match self {
            DiscoveryPhase::FirstTick => DiscoveryPhase::Waiting,
            DiscoveryPhase::Waiting => DiscoveryPhase::Polling,
            other => other,
        }
    }
}

/// The state of unified discovery for one service.
pub struct UnifiedDiscovery {
    local_id: EndpointId,
    alpn: Vec<u8>,
    required_tags: Vec<String>,
    seen: PeerSet,
    phase: DiscoveryPhase,
}

/// The content of unified discovery's state.
pub ghost struct UnifiedView {
    /// The local node.
    pub local: Seq<u8>,
    /// The service.
    pub alpn: Seq<u8>,
    /// The tags that a peer from the DHT needs.
    pub required: Seq<Seq<char>>,
    /// The peers that were yielded.
    pub yielded: Set<Seq<u8>>,
    /// Where it stands.
    pub phase: DiscoveryPhase,
}

impl UnifiedView {
    /// With one more peer yielded, if it passes.
    pub open spec fn offered(self, id: Seq<u8>) -> UnifiedView {
        if passes(self.local, self.yielded, id) {
            UnifiedView { yielded: self.yielded.insert(id), ..self }
        } else {
            self
        }
    }
}

impl View for UnifiedDiscovery {
    type V = UnifiedView;

    closed spec fn view(&self) -> UnifiedView {
        UnifiedView {
            local: self.local_id@,
            alpn: self.alpn@,
            required: texts(self.required_tags@),
            yielded: self.seen@,
            phase: self.phase,
        }
    }
}

impl UnifiedDiscovery {
    /// The state is well formed.
    pub closed spec fn wf(self) -> bool {
        self.seen.wf()
    }

    /// Discover peers by raw ALPN bytes.
    pub fn discover_service_alpn(
        local_id: EndpointId,
        alpn: &[u8],
        options: &DiscoveryOptions,
    ) -> (r: UnifiedDiscovery)
        ensures
            r.wf(),
            r@ == (UnifiedView {
                local: local_id@,
                alpn: alpn@,
                required: texts(options.required_tags@),
                yielded: Set::empty(),
                phase: DiscoveryPhase::InitialCurrent,
            }),
    {
        UnifiedDiscovery {
            local_id,
            alpn: copy_bytes(alpn),
            required_tags: copy_texts(options.required_tags.as_slice()),
            seen: PeerSet::new(),
            phase: DiscoveryPhase::InitialCurrent,
        }
    }

    /// What is done next.
    pub fn action(&self) -> (r: DiscoveryAction)
        ensures
            r == self@.phase.does(),
    {
        match self.phase {
            DiscoveryPhase::InitialCurrent => DiscoveryAction::QueryDht(0),
            DiscoveryPhase::InitialPrevious => DiscoveryAction::QueryDht(-1),
            DiscoveryPhase::FirstTick => DiscoveryAction::SkipTick,
            DiscoveryPhase::Waiting => DiscoveryAction::AwaitEvent,
            DiscoveryPhase::Polling => DiscoveryAction::QueryDht(0),
        }
    }

    fn offer(&mut self, id: EndpointId) -> (r: Option<EndpointId>)
        requires
            old(self).wf(),
        ensures
            final(self).wf(),
            final(self)@ == old(self)@.offered(id@),
            r == if passes(old(self)@.local, old(self)@.yielded, id@) {
                Some(id)
            } else {
                None
            },
    {
        if id.same(&self.local_id) {
            return None;
        }
        if self.seen.insert(id) {
            Some(id)
        } else {
            assert(self.seen@ =~= old(self).seen@);
            None
        }
    }

    /// The DHT answered with a record, or without one. Gives the peer to yield: one that has all
    /// required tags, is not the local node, and was not yielded before.
    pub fn on_record(&mut self, record: Option<&SignedServiceAd>) -> (r: Option<EndpointId>)
        requires
            old(self).wf(),
        ensures
            final(self).wf(),
            ({
                let start = UnifiedView { phase: old(self)@.phase.after_record(), ..old(self)@ };
                match record {
                    Some(ad) => if ad_qualifies(ad@, old(self)@.required) {
                        &&& final(self)@ == start.offered(ad@.ad.node_id)
                        &&& r is Some <==> passes(start.local, start.yielded, ad@.ad.node_id)
                        &&& r matches Some(id) ==> id@ == ad@.ad.node_id
                        &&& forall|tag: Seq<char>| #[trigger]
                            old(self)@.required.contains(tag) ==> ad@.ad.tags.contains(tag)
                    } else {
                        final(self)@ == start && r is None
                    },
                    None => final(self)@ == start && r is None,
                }
            }),
    {
        proof {
            if let Some(ad) = record {
                all_required_texts_are_present(ad@.ad.tags, self@.required);
            }
        }
        self.phase = match self.phase {
            DiscoveryPhase::InitialCurrent => DiscoveryPhase::InitialPrevious,
            DiscoveryPhase::InitialPrevious => DiscoveryPhase::FirstTick,
            _ => DiscoveryPhase::Waiting,
        };
        match record {
            Some(ad) => {
                if !self.required_tags.is_empty() && !ad.has_tags(self.required_tags.as_slice()) {
                    return None;
                }
                match ad.endpoint_id() {
                    Some(id) => self.offer(id),
                    None => None,
                }
            },
            None => None,
        }
    }

    /// A tick of the timer came.
    pub fn on_tick(&mut self)
        requires
            old(self).wf(),
        ensures
            final(self).wf(),
            final(self)@ == (UnifiedView {
                phase: old(self)@.phase.after_tick(),
                ..old(self)@
            }),
    {
        self.phase = match self.phase {
            DiscoveryPhase::FirstTick => DiscoveryPhase::Waiting,
            DiscoveryPhase::Waiting => DiscoveryPhase::Polling,
            other => other,
        };
    }

    /// A node was found by mDNS. Gives the peer to yield: one that announces the service, or
    /// announces nothing, is not the local node, and was not yielded before.
    pub fn on_mdns(&mut self, id: EndpointId, user_data: Option<&UserData>) -> (r: Option<
        EndpointId,
    >)
        requires
            old(self).wf(),
        ensures
            final(self).wf(),
            if user_data is None || alpns_in(user_data->0@).contains(old(self)@.alpn) {
                &&& final(self)@ == old(self)@.offered(id@)
                &&& r == if passes(old(self)@.local, old(self)@.yielded, id@) {
                    Some(id)
                } else {
                    None
                }
            } else {
                final(self)@ == old(self)@ && r is None
            },
            forall|announced: Seq<Seq<u8>>|
                user_data is Some && user_data->0@ == #[trigger] alpns_text(announced) && r is Some
                    ==> announced.contains(old(self)@.alpn),
    {
        match user_data {
            Some(data) => if !user_data_has_alpn(data, self.alpn.as_slice()) {
                return None;
            },
            None => {},
        }
        self.offer(id)
    }
}

/// Unified discovery queries the current and the previous minute, passes over the first tick, and
/// then queries the current minute once per tick, waiting for events in between.
pub proof fn unified_discovery_course(start: DiscoveryPhase)
    requires
        start is InitialCurrent,
    ensures
        start.does() == DiscoveryAction::QueryDht(0),
        start.after_record().does() == DiscoveryAction::QueryDht(-1i64),
        start.after_record().after_record().does() == DiscoveryAction::SkipTick,
        ({
            let waiting = start.after_record().after_record().after_tick();
            &&& waiting.does() == DiscoveryAction::AwaitEvent
            &&& waiting.after_tick().does() == DiscoveryAction::QueryDht(0)
            &&& waiting.after_tick().after_record() == waiting
        }),
{
}

/// A peer is yielded at most once and never the local node; offering one concerns no other peer.
pub proof fn unified_discovery_yields_each_peer_once(
    state: UnifiedView,
    id: Seq<u8>,
    other: Seq<u8>,
)
    requires
        other != id,
    ensures
        passes(state.local, state.yielded, id) <==> id != state.local && !state.yielded.contains(id),
        !passes(state.local, state.offered(id).yielded, id),
        state.offered(id).yielded.contains(id) <==> state.yielded.contains(id) || id != state.local,
        state.offered(id).yielded.contains(other) <==> state.yielded.contains(other),
        state.offered(id).local == state.local,
        state.offered(id).alpn == state.alpn,
        state.offered(id).required == state.required,
        state.offered(id).phase == state.phase,
{
}

} // verus!
