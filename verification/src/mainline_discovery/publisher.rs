//! Server-side DHT publishing for service discovery.

use super::record::{time_or_zero, ServiceRecord};
use crate::keys::{is_endpoint_key, public_key, SecretKey};
use crate::octets::{byte_lists, copy_byte_lists, copy_texts, holds_bytes, texts};
use crate::schedule::PublishSchedule;
use crate::time::{duration_of_secs, secs, seconds_since_epoch, ClockReading};
use std::time::Duration;
use vstd::prelude::*;

verus! {

/// Configuration for mainline DHT publisher.
#[derive(Debug)]
pub struct MainlinePublisherConfig {
    /// Tags to put into published records (e.g., "region:us-east").
    pub tags: Vec<String>,
    /// How often to republish records. Default: 30 seconds.
    pub publish_interval: Duration,
}

impl Clone for MainlinePublisherConfig {
    fn clone(&self) -> (r: MainlinePublisherConfig)
        ensures
            texts(r.tags@) == texts(self.tags@),
            r.publish_interval == self.publish_interval,
    {
        MainlinePublisherConfig {
            tags: copy_texts(self.tags.as_slice()),
            publish_interval: self.publish_interval,
        }
    }
}

impl Default for MainlinePublisherConfig {
    fn default() -> (r: MainlinePublisherConfig)
        ensures
            r.tags@ == Seq::<String>::empty(),
            r.publish_interval == duration_of_secs(30),
    {
        MainlinePublisherConfig { tags: Vec::new(), publish_interval: secs(30) }
    }
}

/// The content of a publisher's state.
pub ghost struct PublisherView {
    /// The secret key of the node.
    pub key: Seq<u8>,
    /// The ALPNs of the services, each once.
    pub services: Seq<Seq<u8>>,
    /// The configuration.
    pub config: MainlinePublisherConfig,
    /// Whether the background task runs.
    pub started: bool,
}

/// Publisher for announcing services via mainline DHT.
///
/// Manages multiple service announcements using the same signing key.
pub struct MainlinePublisher {
    secret_key: SecretKey,
    services: Vec<Vec<u8>>,
    config: MainlinePublisherConfig,
    started: bool,
}

impl View for MainlinePublisher {
    type V = PublisherView;

    closed spec fn view(&self) -> PublisherView {
        PublisherView {
            key: self.secret_key@,
            services: byte_lists(self.services@),
            config: self.config,
            started: self.started,
        }
    }
}

impl MainlinePublisher {
    /// Create a new mainline publisher from an iroh secret key.
    pub fn new(iroh_secret_key: &SecretKey, config: MainlinePublisherConfig) -> (r:
        MainlinePublisher)
        ensures
            r@ == (PublisherView {
                key: iroh_secret_key@,
                services: Seq::empty(),
                config,
                started: false,
            }),
    {
        let r = MainlinePublisher {
            secret_key: *iroh_secret_key,
            services: Vec::new(),
            config,
            started: false,
        };
        assert(r@.services =~= Seq::empty());
        r
    }

    /// Add a service to publish by its ALPN; one that is there already is not added again.
    pub fn add_service(&mut self, alpn: Vec<u8>)
        requires
            old(self)@.services.no_duplicates(),
        ensures
            final(self)@ == if old(self)@.services.contains(alpn@) {
                old(self)@
            } else {
                PublisherView { services: old(self)@.services.push(alpn@), ..old(self)@ }
            },
            final(self)@.services.no_duplicates(),
    {
        if holds_bytes(self.services.as_slice(), alpn.as_slice()) {
            return;
        }
        let ghost before = self@.services;
        self.services.push(alpn);
        assert(self@.services =~= before.push(alpn@));
        assert forall|i: int, j: int|
            0 <= i < self@.services.len() && 0 <= j < self@.services.len() && i
                != j implies self@.services[i] != self@.services[j] by {
            if i < before.len() && j < before.len() {
                assert(before[i] != before[j]);
            } else if i < before.len() {
                assert(before.contains(before[i]));
            } else {
                assert(before.contains(before[j]));
            }
        }
    }

    /// Start publishing. Gives the services to publish, or nothing where publishing runs already.
    /// When each round is due, `schedule` says.
    pub fn start(&mut self) -> (r: Option<Vec<Vec<u8>>>)
        ensures
            final(self)@ == (PublisherView { started: true, ..old(self)@ }),
            r is Some <==> !old(self)@.started,
            r matches Some(services) ==> byte_lists(services@) == old(self)@.services,
    {
        if self.started {
            return None;
        }
        self.started = true;
        Some(copy_byte_lists(self.services.as_slice()))
    }

    /// Stop publishing. Tells whether it ran.
    pub fn stop(&mut self) -> (r: bool)
        ensures
            final(self)@ == (PublisherView { started: false, ..old(self)@ }),
            r == old(self)@.started,
    {
        let ran = self.started;
        self.started = false;
        ran
    }

    /// When the records are published: once at the start, and then once per interval.
    pub fn schedule(&self) -> (r: PublishSchedule)
        ensures
            r.stands() is Initial,
    {
        PublishSchedule::new()
    }

    /// The configuration.
    pub fn config(&self) -> (r: &MainlinePublisherConfig)
        ensures
            *r == self@.config,
    {
        &self.config
    }

    /// The secret key of the node, which signs the records.
    pub fn secret_key(&self) -> (r: &SecretKey)
        ensures
            r@ == self@.key,
    {
        &self.secret_key
    }

    /// The record to publish now, at the second that the clock gives.
    pub fn record(&self) -> (r: ServiceRecord)
        ensures
            r.node_id@ == public_key(self@.key),
            is_endpoint_key(r.node_id@),
            texts(r.tags@) == texts(self@.config.tags@),
            exists|reading: ClockReading| r.published_at == #[trigger] reading.seconds_or_zero(),
    {
        let reading = seconds_since_epoch();
        let ghost now = reading.seconds_or_zero();
        self.record_at(reading.outcome())
    }

    /// The record to publish at the clock's reading.
    pub fn record_at(&self, reading: Result<u64, String>) -> (r: ServiceRecord)
        ensures
            r.node_id@ == public_key(self@.key),
            is_endpoint_key(r.node_id@),
            texts(r.tags@) == texts(self@.config.tags@),
            r.published_at == match reading {
                Ok(now) => now,
                Err(_) => 0,
            },
    {
        ServiceRecord {
            node_id: *self.secret_key.public().as_bytes(),
            tags: copy_texts(self.config.tags.as_slice()),
            published_at: time_or_zero(reading),
        }
    }
}

} // verus!
