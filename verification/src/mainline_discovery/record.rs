//! Service record content type for DHT publishing.

use crate::keys::{is_endpoint_key, EndpointId};
use crate::octets::{has_all_texts, holds_all_texts, texts};
use crate::time::{seconds_since_epoch, ClockReading};
use vstd::prelude::*;

verus! {

/// Content stored in DHT records for service discovery.
#[derive(Debug)]
pub struct ServiceRecord {
    /// The iroh node id bytes (32 bytes).
    pub node_id: [u8; 32],
    /// Optional coarse tags for filtering (e.g., "region:us-east", "tier:premium").
    pub tags: Vec<String>,
    /// Unix timestamp when the record was published.
    pub published_at: u64,
}

/// The time that a reading of the clock gives: zero where the clock stands before the Unix epoch.
pub fn time_or_zero(reading: Result<u64, String>) -> (r: u64)
    ensures
        r == match reading {
            Ok(now) => now,
            Err(_) => 0,
        },
{
    match reading {
        Ok(now) => now,
        Err(_) => 0,
    }
}

impl ServiceRecord {
    /// Create a new service record for the given endpoint, published now: at the second that the
    /// clock gives.
    pub fn new(endpoint_id: EndpointId, tags: Vec<String>) -> (r: ServiceRecord)
        ensures
            r.node_id@ == endpoint_id@,
            is_endpoint_key(r.node_id@),
            r.tags == tags,
            exists|reading: ClockReading| r.published_at == #[trigger] reading.seconds_or_zero(),
    {
        let reading = seconds_since_epoch();
        let ghost now = reading.seconds_or_zero();
        ServiceRecord {
            node_id: *endpoint_id.as_bytes(),
            tags,
            published_at: time_or_zero(reading.outcome()),
        }
    }

    /// Get the endpoint id from a record that holds one.
    pub fn endpoint_id(&self) -> (r: EndpointId)
        requires
            is_endpoint_key(self.node_id@),
        ensures
            r@ == self.node_id@,
    {
        EndpointId::from_bytes(&self.node_id).unwrap()
    }

    /// Get the endpoint id from the record, if its bytes are those of one.
    pub fn checked_endpoint_id(&self) -> (r: Option<EndpointId>)
        ensures
            r is Some <==> is_endpoint_key(self.node_id@),
            r matches Some(id) ==> id@ == self.node_id@,
    {
        if EndpointId::from_bytes(&self.node_id).is_some() {
            Some(self.endpoint_id())
        } else {
            None
        }
    }

    /// Check if the record has all the required tags.
    pub fn has_tags(&self, required_tags: &[String]) -> (r: bool)
        ensures
            r == has_all_texts(texts(self.tags@), texts(required_tags@)),
            r == (forall|tag: Seq<char>| #[trigger]
                texts(required_tags@).contains(tag) ==> texts(self.tags@).contains(tag)),
    {
        holds_all_texts(self.tags.as_slice(), required_tags)
    }
}

} // verus!
