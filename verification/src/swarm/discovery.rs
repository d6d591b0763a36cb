//! The peers that discovery yields.

use crate::keys::EndpointId;
use vstd::prelude::*;

verus! {

/// A peer as its feed yields it.
#[derive(Debug, Clone, Copy, PartialEq, Eq)]
pub struct DiscoveredPeer {
    /// The peer.
    pub id: EndpointId,
    /// How far the feed trusts the peer (0 = not at all, 255 = fully).
    pub trust: u8,
}

impl View for DiscoveredPeer {
    type V = (Seq<u8>, u8);

    open spec fn view(&self) -> (Seq<u8>, u8) {
        (self.id@, self.trust)
    }
}

/// The contents of a list of discovered peers.
pub open spec fn peer_list(peers: Seq<DiscoveredPeer>) -> Seq<(Seq<u8>, u8)> {
    Seq::new(peers.len(), |i: int| peers[i]@)
}

/// A discovered peer together with the feed that it came from.
#[derive(Debug, Clone, Copy, PartialEq, Eq)]
pub struct Peer {
    discovered: DiscoveredPeer,
    source: &'static str,
    source_trust: u8,
}

impl Peer {
    /// The peer as its feed yielded it.
    pub closed spec fn found(self) -> DiscoveredPeer {
        self.discovered
    }

    /// The name of the feed.
    pub closed spec fn feed(self) -> &'static str {
        self.source
    }

    /// How far the feed itself is trusted.
    pub closed spec fn feed_trust(self) -> u8 {
        self.source_trust
    }

    /// Attach the feed's name and trust to a discovered peer.
    pub fn new(discovered: DiscoveredPeer, source: &'static str, source_trust: u8) -> (r: Peer)
        ensures
            r.found() == discovered,
            r.feed() == source,
            r.feed_trust() == source_trust,
    {
        Peer { discovered, source, source_trust }
    }

    /// The peer's id.
    pub fn id(&self) -> (r: EndpointId)
        ensures
            r == self.found().id,
    {
        self.discovered.id
    }

    /// How far the feed trusts the peer.
    pub fn trust(&self) -> (r: u8)
        ensures
            r == self.found().trust,
    {
        self.discovered.trust
    }

    /// The name of the feed.
    pub fn source(&self) -> (r: &'static str)
        ensures
            r == self.feed(),
    {
        self.source
    }

    /// How far the feed itself is trusted.
    pub fn source_trust(&self) -> (r: u8)
        ensures
            r == self.feed_trust(),
    {
        self.source_trust
    }
}

} // verus!
