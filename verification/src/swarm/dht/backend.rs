//! DHT-based peer discovery backend.

use super::publisher::{DhtPublisher, DhtPublisherConfig};
use crate::keys::SecretKey;
use crate::octets::texts;
use crate::swarm::peers::{all_shards, DhtFeed};
use crate::time::{duration_of_secs, secs};
use std::sync::Arc;
use std::time::Duration;
use vstd::prelude::*;

verus! {

/// DHT-based peer discovery backend, over a shared DHT client.
pub struct DhtBackend<D> {
    /// The DHT client.
    pub dht: Arc<D>,
    /// The feed priority.
    pub priority: u8,
    /// The source trust level.
    pub trust: u8,
    /// The DHT poll interval.
    pub poll_interval: Duration,
    /// The tags that records need.
    pub required_tags: Vec<String>,
}

impl<D> DhtBackend<D> {
    /// Create a DHT backend with an existing DHT client.
    pub fn with_dht(dht: Arc<D>) -> (r: DhtBackend<D>)
        ensures
            r.dht == dht,
            r.priority == 100,
            r.trust == 50,
            r.poll_interval == duration_of_secs(60),
            r.required_tags@ == Seq::<String>::empty(),
    {
        DhtBackend {
            dht,
            priority: 100,
            trust: 50,
            poll_interval: secs(60),
            required_tags: Vec::new(),
        }
    }

    /// Set the feed priority (lower = polled first). Default: 100.
    pub fn priority(self, p: u8) -> (r: DhtBackend<D>)
        ensures
            r == (DhtBackend { priority: p, ..self }),
    {
        let mut r = self;
        r.priority = p;
        r
    }

    /// Set the source trust level (0-255). Default: 50.
    pub fn trust(self, t: u8) -> (r: DhtBackend<D>)
        ensures
            r == (DhtBackend { trust: t, ..self }),
    {
        let mut r = self;
        r.trust = t;
        r
    }

    /// Set the DHT poll interval. Default: 60s.
    pub fn poll_interval(self, d: Duration) -> (r: DhtBackend<D>)
        ensures
            r == (DhtBackend { poll_interval: d, ..self }),
    {
        let mut r = self;
        r.poll_interval = d;
        r
    }

    /// Set required tags for filtering DHT records.
    pub fn required_tags(self, tags: Vec<String>) -> (r: DhtBackend<D>)
        ensures
            r == (DhtBackend { required_tags: tags, ..self }),
    {
        let mut r = self;
        r.required_tags = tags;
        r
    }

    /// Access the underlying DHT client.
    pub fn dht(&self) -> (r: &Arc<D>)
        ensures
            *r == self.dht,
    {
        &self.dht
    }

    /// The name of the backend.
    pub fn name(&self) -> (r: &'static str)
        ensures
            r@ == "dht"@,
    {
        "dht"
    }

    /// The course of the backend's feed, from its start.
    pub fn feed(&self) -> (r: DhtFeed)
        ensures
            r.stands() is BurstCurrent,
            r.awaited() == all_shards(),
            r.required() == texts(self.required_tags@),
            r.peer_trust() == self.trust,
    {
        DhtFeed::new(self.required_tags.as_slice(), self.trust)
    }

    /// Create a DHT publisher for server-side announcements of the node with the key.
    pub fn create_publisher(&self, secret_key: SecretKey, config: DhtPublisherConfig) -> (r:
        DhtPublisher<Arc<D>>)
        ensures
            r.client() == self.dht,
            r.key() == secret_key@,
            r.settings() == config,
            r.registered() == Seq::<Seq<u8>>::empty(),
    {
        DhtPublisher::new(Arc::clone(&self.dht), secret_key, config)
    }
}

} // verus!
