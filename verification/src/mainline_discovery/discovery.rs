//! Client-side DHT discovery for finding service providers.

use super::record::ServiceRecord;
use crate::keys::{is_endpoint_key, EndpointId};
use crate::octets::{all_required_texts_are_present, copy_texts, has_all_texts, texts};
use crate::peer_map::PeerSet;
use crate::time::{duration_of_secs, secs};
use std::time::Duration;
use vstd::prelude::*;

verus! {

/// Options for service discovery.
#[derive(Debug)]
pub struct DiscoveryOptions {
    /// Timeout for each DHT query.
    pub timeout: Duration,
    /// Filter by required tags.
    pub required_tags: Vec<String>,
    /// Whether to also query the previous minute to handle clock drift.
    pub query_previous_minute: bool,
}

impl Clone for DiscoveryOptions {
    fn clone(&self) -> (r: DiscoveryOptions)
        ensures
            r.timeout == self.timeout,
            texts(r.required_tags@) == texts(self.required_tags@),
            r.query_previous_minute == self.query_previous_minute,
    {
        DiscoveryOptions {
            timeout: self.timeout,
            required_tags: copy_texts(self.required_tags.as_slice()),
            query_previous_minute: self.query_previous_minute,
        }
    }
}

impl Default for DiscoveryOptions {
    fn default() -> (r: DiscoveryOptions)
        ensures
            r.timeout == duration_of_secs(10),
            r.required_tags@ == Seq::<String>::empty(),
            r.query_previous_minute,
    {
        DiscoveryOptions {
            timeout: secs(10),
            required_tags: Vec::new(),
            query_previous_minute: true,
        }
    }
}

/// The minutes to query, as offsets from the current one, in order.
pub fn query_offsets(options: &DiscoveryOptions) -> (r: Vec<i64>)
    ensures
        r@ == if options.query_previous_minute {
            seq![0i64, -1i64]
        } else {
            seq![0i64]
        },
{
    let mut r: Vec<i64> = Vec::new();
    r.push(0);
    if options.query_previous_minute {
        r.push(-1);
    }
    assert(r@ =~= if options.query_previous_minute {
        seq![0i64, -1i64]
    } else {
        seq![0i64]
    });
    r
}

/// The search for the peers of one service: which peers were seen.
pub struct ServiceSearch {
    self_id: EndpointId,
    required_tags: Vec<String>,
    seen: PeerSet,
}

impl ServiceSearch {
    /// The local node.
    pub closed spec fn local(self) -> Seq<u8> {
        self.self_id@
    }

    /// The tags that a peer needs.
    pub closed spec fn required(self) -> Seq<Seq<char>> {
        texts(self.required_tags@)
    }

    /// The peers that were seen, whether or not they had the tags.
    pub closed spec fn seen_peers(self) -> Set<Seq<u8>> {
        self.seen@
    }

    /// The state is well formed.
    pub closed spec fn wf(self) -> bool {
        self.seen.wf()
    }

    /// Before any record.
    pub fn new(self_id: EndpointId, options: &DiscoveryOptions) -> (r: ServiceSearch)
        ensures
            r.wf(),
            r.local() == self_id@,
            r.required() == texts(options.required_tags@),
            r.seen_peers() == Set::<Seq<u8>>::empty(),
    {
        ServiceSearch {
            self_id,
            required_tags: copy_texts(options.required_tags.as_slice()),
            seen: PeerSet::new(),
        }
    }

    /// Takes in a record, or that one could not be read. Gives the peer to yield: not the local
    /// node, not seen before, and with all required tags.
    pub fn process_record(&mut self, record: Option<&ServiceRecord>) -> (r: Option<EndpointId>)
        requires
            old(self).wf(),
            record is Some ==> is_endpoint_key(record->0.node_id@),
        ensures
            final(self).wf(),
            final(self).local() == old(self).local(),
            final(self).required() == old(self).required(),
            match record {
                None => r is None && final(self).seen_peers() == old(self).seen_peers(),
                Some(found) => {
                    let id = found.node_id@;
                    &&& r is Some <==> id != old(self).local() && !old(self).seen_peers().contains(
                        id,
                    ) && has_all_texts(texts(found.tags@), old(self).required())
                    &&& r matches Some(peer) ==> peer@ == id
                    &&& r is Some ==> forall|tag: Seq<char>| #[trigger]
                        old(self).required().contains(tag) ==> texts(found.tags@).contains(tag)
                    &&& final(self).seen_peers() == if id == old(self).local() {
                        old(self).seen_peers()
                    } else {
                        old(self).seen_peers().insert(id)
                    }
                },
            },
    {
        proof {
            if let Some(found) = record {
                all_required_texts_are_present(texts(found.tags@), self.required());
            }
        }
        match record {
            Some(found) => {
                let node_id = found.endpoint_id();
                if node_id.same(&self.self_id) {
                    return None;
                }
                if !self.seen.insert(node_id) {
                    return None;
                }
                if !self.required_tags.is_empty() && !found.has_tags(
                    self.required_tags.as_slice(),
                ) {
                    return None;
                }
                Some(node_id)
            },
            None => None,
        }
    }

    /// Takes in a record whose node id was not checked. Gives nothing where it is no endpoint id,
    /// and else what processing the record gives.
    pub fn process_unchecked(&mut self, record: Option<&ServiceRecord>) -> (r: Option<
        Option<EndpointId>,
    >)
        requires
            old(self).wf(),
        ensures
            final(self).wf(),
            final(self).local() == old(self).local(),
            final(self).required() == old(self).required(),
            r is Some <==> (record is Some ==> is_endpoint_key(record->0.node_id@)),
            r is None ==> final(self).seen_peers() == old(self).seen_peers(),
            r matches Some(peer) ==> match record {
                None => peer is None && final(self).seen_peers() == old(self).seen_peers(),
                Some(found) => {
                    let id = found.node_id@;
                    &&& peer is Some <==> id != old(self).local() && !old(
                        self).seen_peers().contains(id) && has_all_texts(
                        texts(found.tags@),
                        old(self).required(),
                    )
                    &&& peer matches Some(p) ==> p@ == id
                    &&& peer is Some ==> forall|tag: Seq<char>| #[trigger]
                        old(self).required().contains(tag) ==> texts(found.tags@).contains(tag)
                    &&& final(self).seen_peers() == if id == old(self).local() {
                        old(self).seen_peers()
                    } else {
                        old(self).seen_peers().insert(id)
                    }
                },
            },
    {
        match record {
            Some(found) => {
                if found.checked_endpoint_id().is_none() {
                    return None;
                }
            },
            None => {},
        }
        Some(self.process_record(record))
    }
}

} // verus!
