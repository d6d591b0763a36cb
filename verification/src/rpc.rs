//! Helper for serving tonic gRPC services over iroh with sane defaults.

use vstd::prelude::*;

verus! {

/// Builder for serving tonic services over iroh: a router and a single server that hosts all added
/// services over a shared incoming stream.
pub struct RpcServer<E, S> {
    endpoint: E,
    services: Vec<S>,
}

impl<E, S> RpcServer<E, S> {
    /// The services, in the order in which they were added.
    pub closed spec fn added(self) -> Seq<S> {
        self.services@
    }

    /// The endpoint.
    pub closed spec fn host(self) -> E {
        self.endpoint
    }

    /// Create a new RPC server builder for the endpoint.
    pub fn new(endpoint: E) -> (r: RpcServer<E, S>)
        ensures
            r.added() == Seq::<S>::empty(),
            r.host() == endpoint,
    {
        RpcServer { endpoint, services: Vec::new() }
    }

    /// Add a tonic service to be served over iroh.
    pub fn add_service(self, service: S) -> (r: RpcServer<E, S>)
        ensures
            r.added() == self.added().push(service),
            r.host() == self.host(),
    {
        let mut r = self;
        r.services.push(service);
        r
    }

    /// Whether there is a service to serve.
    pub fn has_services(&self) -> (r: bool)
        ensures
            r == (self.added().len() > 0),
    {
        self.services.len() > 0
    }

    /// The endpoint, and the services to register on its router, in order. At least one service is
    /// required.
    pub fn serve(self) -> (r: (E, Vec<S>))
        requires
            self.added().len() > 0,
        ensures
            r.0 == self.host(),
            r.1@ == self.added(),
    {
        (self.endpoint, self.services)
    }
}

} // verus!
