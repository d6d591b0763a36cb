//! Unified transport builder for composing RPC services over a single iroh router.

use crate::alpn::{service_alpn, service_to_alpn};
use crate::error::Error;
use crate::octets::{byte_lists, copy_bytes};
use crate::server::DEFAULT_INCOMING_BUFFER_CAPACITY;
use crate::swarm::dht::publisher::DhtPublisher;
use crate::user_data::{alpns_text, encode_alpns, UserData, USER_DATA_MAX_LENGTH};
use vstd::prelude::*;

verus! {

/// Builder for composing RPC services over a single iroh router.
pub struct TransportBuilder<E, S, D> {
    endpoint: E,
    services: Vec<S>,
    alpns: Vec<Vec<u8>>,
    incoming_buffer_capacity: usize,
    publisher: Option<DhtPublisher<D>>,
}

/// The content of a transport builder.
pub ghost struct TransportView<E, S, D> {
    /// The endpoint.
    pub endpoint: E,
    /// The services, in the order in which they were added.
    pub services: Seq<S>,
    /// The ALPNs of the services.
    pub alpns: Seq<Seq<u8>>,
    /// How many accepted streams may wait.
    pub incoming_buffer_capacity: usize,
    /// The DHT publisher, if there is one.
    pub publisher: Option<DhtPublisher<D>>,
}

impl<E, S, D> View for TransportBuilder<E, S, D> {
    type V = TransportView<E, S, D>;

    closed spec fn view(&self) -> TransportView<E, S, D> {
        TransportView {
            endpoint: self.endpoint,
            services: self.services@,
            alpns: byte_lists(self.alpns@),
            incoming_buffer_capacity: self.incoming_buffer_capacity,
            publisher: self.publisher,
        }
    }
}

/// What a transport starts: the services behind a router, what the node announces of them, and the
/// publisher that knows them.
pub struct SpawnPlan<E, S, D> {
    /// The endpoint.
    pub endpoint: E,
    /// The services to register, in order.
    pub services: Vec<S>,
    /// How many accepted streams may wait.
    pub incoming_buffer_capacity: usize,
    /// What to announce with the node's addresses, if anything.
    pub user_data: Option<UserData>,
    /// The publisher to run, if there is one.
    pub publisher: Option<DhtPublisher<D>>,
    /// Whether there is an RPC server to run.
    pub serves_rpc: bool,
}

impl<E, S, D> TransportBuilder<E, S, D> {
    /// Create a new builder for an endpoint.
    #[must_use]
    pub fn new(endpoint: E) -> (r: TransportBuilder<E, S, D>)
        ensures
            r@ == (TransportView {
                endpoint,
                services: Seq::<S>::empty(),
                alpns: Seq::empty(),
                incoming_buffer_capacity: DEFAULT_INCOMING_BUFFER_CAPACITY,
                publisher: None::<DhtPublisher<D>>,
            }),
    {
        let r = TransportBuilder {
            endpoint,
            services: Vec::new(),
            alpns: Vec::new(),
            incoming_buffer_capacity: DEFAULT_INCOMING_BUFFER_CAPACITY,
            publisher: None,
        };
        assert(r@.alpns =~= Seq::empty());
        r
    }

    /// Enable DHT publishing with a pre-configured publisher.
    #[must_use]
    pub fn with_publisher(self, publisher: DhtPublisher<D>) -> (r: TransportBuilder<E, S, D>)
        ensures
            r@ == (TransportView { publisher: Some(publisher), ..self@ }),
    {
        let mut r = self;
        r.publisher = Some(publisher);
        r
    }

    /// Add an RPC service with its name.
    #[must_use]
    pub fn add_rpc(self, service_name: &str, service: S) -> (r: TransportBuilder<E, S, D>)
        ensures
            r@ == (TransportView {
                services: self@.services.push(service),
                alpns: self@.alpns.push(service_alpn(service_name@)),
                ..self@
            }),
    {
        let mut r = self;
        r.alpns.push(service_to_alpn(service_name));
        r.services.push(service);
        assert(r@.alpns =~= self@.alpns.push(service_alpn(service_name@)));
        r
    }

    /// Set the maximum number of accepted RPC streams buffered for the server, at least one.
    ///
    /// When the queue is full, newly accepted streams are rejected immediately instead of being
    /// buffered unboundedly in memory.
    #[must_use]
    pub fn incoming_buffer_capacity(self, capacity: usize) -> (r: TransportBuilder<E, S, D>)
        ensures
            r@ == (TransportView {
                incoming_buffer_capacity: if capacity < 1 {
                    1
                } else {
                    capacity
                },
                ..self@
            }),
    {
        let mut r = self;
        r.incoming_buffer_capacity = if capacity < 1 {
            1
        } else {
            capacity
        };
        r
    }

    /// Decide what the transport starts. A node with services announces all of them, and a publisher
    /// publishes all of them.
    ///
    /// # Errors
    ///
    /// Returns an error if the announcement of the services is too long.
    pub fn spawn(self) -> (r: Result<SpawnPlan<E, S, D>, Error>)
        ensures
            r is Ok <==> self@.alpns.len() == 0 || alpns_text(self@.alpns).len()
                <= USER_DATA_MAX_LENGTH,
            match r {
                Ok(plan) => {
                    &&& plan.endpoint == self@.endpoint
                    &&& plan.services@ == self@.services
                    &&& plan.incoming_buffer_capacity == self@.incoming_buffer_capacity
                    &&& plan.serves_rpc == (self@.services.len() > 0)
                    &&& plan.user_data is Some <==> self@.alpns.len() > 0
                    &&& plan.user_data matches Some(data) ==> data@ == alpns_text(self@.alpns)
                    &&& plan.publisher is Some <==> self@.publisher is Some
                    &&& plan.publisher matches Some(publisher) ==> {
                        &&& publisher.registered() == self@.publisher->0.registered()
                            + self@.alpns
                        &&& publisher.client() == self@.publisher->0.client()
                        &&& publisher.key() == self@.publisher->0.key()
                        &&& publisher.settings() == self@.publisher->0.settings()
                    }
                },
                Err(e) => e is AddressLookupMetadata && e->AddressLookupMetadata_0@
                    == "encoded ALPN metadata exceeds 245 bytes"@,
            },
    {
        let user_data = if self.alpns.len() > 0 {
            match encode_alpns(self.alpns.as_slice()) {
                Ok(data) => Some(data),
                Err(e) => {
                    return Err(e);
                },
            }
        } else {
            None
        };
        let serves_rpc = self.services.len() > 0;
        let publisher = match self.publisher {
            Some(publisher) => Some(register_all(publisher, self.alpns.as_slice())),
            None => None,
        };
        Ok(
            SpawnPlan {
                endpoint: self.endpoint,
                services: self.services,
                incoming_buffer_capacity: self.incoming_buffer_capacity,
                user_data,
                publisher,
                serves_rpc,
            },
        )
    }
}

/// Register the services with the publisher, in order.
fn register_all<D>(publisher: DhtPublisher<D>, alpns: &[Vec<u8>]) -> (r: DhtPublisher<D>)
    ensures
        r.registered() == publisher.registered() + byte_lists(alpns@),
        r.client() == publisher.client(),
        r.key() == publisher.key(),
        r.settings() == publisher.settings(),
{
    let ghost all = byte_lists(alpns@);
    let mut r = publisher;
    let mut i: usize = 0;
    assert(publisher.registered() + all.take(0) =~= publisher.registered());
    while i < alpns.len()
        invariant
            i <= alpns.len(),
            all == byte_lists(alpns@),
            r.registered() == publisher.registered() + all.take(i as int),
            r.client() == publisher.client(),
            r.key() == publisher.key(),
            r.settings() == publisher.settings(),
        decreases alpns.len() - i,
    {
        r.add_service(copy_bytes(alpns[i].as_slice()));
        i = i + 1;
        assert(r.registered() =~= publisher.registered() + all.take(i as int));
    }
    assert(all.take(i as int) =~= all);
    r
}

} // verus!
