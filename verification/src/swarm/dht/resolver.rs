//! Client-side DHT resolution for service records.

use super::{derive_salt, derive_signing_key, shard_key_seed, shard_salt};
use crate::error::Error;
use crate::keys::{dht_public_key, is_endpoint_key, signature_verifies};
use crate::octets::byte_lists;
use crate::swarm::record::merge::{best_of, candidates, counts_in, newest_first};
use crate::swarm::record::merge::merge_keeps_the_newest_of_each_node;
use crate::swarm::record::{ad_message, ad_valid, bucket_list, bucket_read, bucket_sized};
use crate::swarm::record::{bucket_wire, decode_bucket, signed_ads, valid_ad_is_signed_and_current};
use crate::swarm::record::{BucketView, ServiceBucket, SignedAdView, SignedServiceAd};
use crate::swarm::record::DHT_BUCKET_VERSION;
use crate::text::{decimal, decimal_text, lossy_text, text_of_bytes};
use crate::time::{seconds_since_epoch, ClockReading};
use vstd::prelude::*;
use vstd::string::*;

verus! {

/// Where the DHT keeps a shard bucket.
pub struct ShardTarget {
    /// The public key that the bucket is stored under.
    pub public_key: [u8; 32],
    /// The salt that the bucket is stored under.
    pub salt: Vec<u8>,
}

/// Where the DHT keeps the bucket of a shard of a service in a minute.
pub fn shard_target(alpn: &[u8], minute: u64, shard: u8) -> (r: ShardTarget)
    ensures
        r.public_key@ == dht_public_key(shard_key_seed(alpn@, minute, shard)),
        r.salt@ == shard_salt(alpn@, minute, shard),
{
    let signing_key = derive_signing_key(alpn, minute, shard);
    ShardTarget {
        public_key: signing_key.verifying_key(),
        salt: derive_salt(alpn, minute, shard),
    }
}

/// The buckets that stored values decode to; values that do not decode are passed over.
pub open spec fn readable_buckets(values: Seq<Seq<u8>>) -> Seq<BucketView>
    decreases values.len(),
{
    if values.len() == 0 {
        Seq::empty()
    } else {
        let earlier = readable_buckets(values.drop_last());
        match bucket_read(values.last()) {
            Some(bucket) => earlier.push(bucket),
            None => earlier,
        }
    }
}

/// The ads are those of the stored values that count at the time `now`, one per node, the newest
/// first.
pub open spec fn resolved_from(
    values: Seq<Seq<u8>>,
    alpn: Seq<u8>,
    minute: u64,
    shard: u8,
    now: u64,
    ads: Seq<SignedAdView>,
) -> bool {
    &&& best_of(candidates(readable_buckets(values), alpn, minute, shard, now), ads)
    &&& newest_first(ads)
}

/// Decode stored values, passing over those that do not decode. The encoding of a bucket decodes
/// to that bucket.
pub fn decode_buckets(values: &[Vec<u8>]) -> (buckets: Vec<ServiceBucket>)
    ensures
        bucket_list(buckets@) == readable_buckets(byte_lists(values@)),
        forall|bucket: BucketView|
            bucket_sized(bucket) && byte_lists(values@).contains(#[trigger] bucket_wire(bucket))
                ==> readable_buckets(byte_lists(values@)).contains(bucket),
{
    let ghost all = byte_lists(values@);
    let mut buckets: Vec<ServiceBucket> = Vec::new();
    let mut i: usize = 0;
    assert(all.take(0) =~= Seq::empty());
    assert(bucket_list(buckets@) =~= Seq::empty());
    while i < values.len()
        invariant
            i <= values.len(),
            all == byte_lists(values@),
            bucket_list(buckets@) == readable_buckets(all.take(i as int)),
            forall|bucket: BucketView, j: int|
                bucket_sized(bucket) && 0 <= j < i && #[trigger] all[j] == #[trigger] bucket_wire(
                    bucket,
                ) ==> readable_buckets(all.take(i as int)).contains(bucket),
        decreases values.len() - i,
    {
        let ghost earlier = readable_buckets(all.take(i as int));
        let ghost next = readable_buckets(all.take(i + 1));
        assert(all.take(i + 1).drop_last() =~= all.take(i as int));
        assert(all.take(i + 1).last() == values@[i as int]@);
        match decode_bucket(values[i].as_slice()) {
            Some(bucket) => {
                let ghost b = bucket@;
                buckets.push(bucket);
                assert(next == earlier.push(b));
                assert(bucket_list(buckets@) =~= next);
                assert(next[next.len() - 1] == b);
            },
            None => {},
        }
        assert forall|bucket: BucketView, j: int|
            bucket_sized(bucket) && 0 <= j < i + 1 && #[trigger] all[j] == #[trigger] bucket_wire(
                bucket,
            ) implies next.contains(bucket) by {
            if j < i {
                assert(earlier.contains(bucket));
                let k = choose|k: int| 0 <= k < earlier.len() && earlier[k] == bucket;
                assert(next[k] == bucket);
            }
        }
        i = i + 1;
    }
    assert(all.take(i as int) =~= all);
    assert forall|bucket: BucketView|
        bucket_sized(bucket) && all.contains(#[trigger] bucket_wire(bucket)) implies readable_buckets(
        all,
    ).contains(bucket) by {
        let j = choose|j: int| 0 <= j < all.len() && all[j] == bucket_wire(bucket);
        assert(all[j] == bucket_wire(bucket));
    }
    buckets
}

/// The text of the error for a failed query.
pub open spec fn query_failed_text(
    alpn: Seq<u8>,
    minute: u64,
    shard: u8,
    cause: Seq<char>,
) -> Seq<char> {
    "DHT shard query task failed for alpn="@ + lossy_text(alpn) + " minute="@ + decimal(
        minute as nat,
    ) + " shard="@ + decimal(shard as nat) + ": "@ + cause
}

/// Resolver for querying service records from mainline DHT, over a shared DHT client.
#[derive(Clone)]
pub struct DhtResolver<D> {
    dht: D,
}

impl<D> DhtResolver<D> {
    /// The DHT client.
    pub closed spec fn client(self) -> D {
        self.dht
    }

    /// Create a new resolver wrapping a shared DHT client.
    #[must_use]
    pub fn new(dht: D) -> (r: DhtResolver<D>)
        ensures
            r.client() == dht,
    {
        DhtResolver { dht }
    }

    /// Access the DHT client.
    pub fn dht(&self) -> (r: &D)
        ensures
            *r == self.client(),
    {
        &self.dht
    }

    /// Resolve what a query of a specific shard bucket brought: the stored values, or the cause of
    /// its failure.
    ///
    /// The values are judged by the wall clock, or as of the Unix epoch where the clock stands
    /// before it.
    ///
    /// # Errors
    ///
    /// Returns an error if the DHT query task failed.
    pub fn query_shard(
        &self,
        outcome: Result<Vec<Vec<u8>>, String>,
        alpn: &[u8],
        minute: u64,
        shard: u8,
    ) -> (r: Result<Vec<SignedServiceAd>, Error>)
        ensures
            match (outcome, r) {
                (Ok(values), Ok(ads)) => {
                    &&& exists|reading: ClockReading|
                        resolved_from(
                            byte_lists(values@),
                            alpn@,
                            minute,
                            shard,
                            #[trigger] reading.seconds_or_zero(),
                            signed_ads(ads@),
                        )
                    &&& forall|bucket: BucketView|
                        bucket_sized(bucket) && byte_lists(values@).contains(
                            #[trigger] bucket_wire(bucket),
                        ) ==> readable_buckets(byte_lists(values@)).contains(bucket)
                },
                (Err(cause), Err(e)) => e is DhtDiscovery && e->DhtDiscovery_0@
                    == query_failed_text(alpn@, minute, shard, cause@),
                _ => false,
            },
    {
        let reading = seconds_since_epoch();
        let ghost read = reading.seconds_or_zero();
        let now: u64 = match reading.outcome() {
            Ok(now) => now,
            Err(_) => 0,
        };
        resolve_shard(outcome, alpn, minute, shard, now)
    }
}

/// Resolve what a query of a shard bucket brought, as of the time `now`.
///
/// # Errors
///
/// Returns an error if the query failed, with its cause.
pub fn resolve_shard(
    outcome: Result<Vec<Vec<u8>>, String>,
    alpn: &[u8],
    minute: u64,
    shard: u8,
    now: u64,
) -> (r: Result<Vec<SignedServiceAd>, Error>)
    ensures
        match (outcome, r) {
            (Ok(values), Ok(ads)) => {
                &&& resolved_from(
                    byte_lists(values@),
                    alpn@,
                    minute,
                    shard,
                    now,
                    signed_ads(ads@),
                )
                &&& forall|bucket: BucketView|
                    bucket_sized(bucket) && byte_lists(values@).contains(
                        #[trigger] bucket_wire(bucket),
                    ) ==> readable_buckets(byte_lists(values@)).contains(bucket)
                &&& forall|k: int|
                    0 <= k < ads.len() ==> ad_valid(
                        #[trigger] signed_ads(ads@)[k],
                        alpn@,
                        minute,
                        shard,
                        now,
                    )
            },
            (Err(cause), Err(e)) => e is DhtDiscovery && e->DhtDiscovery_0@ == query_failed_text(
                alpn@,
                minute,
                shard,
                cause@,
            ),
            _ => false,
        },
{
    match outcome {
        Ok(values) => {
            let buckets = decode_buckets(values.as_slice());
            Ok(ServiceBucket::merge_valid(buckets.as_slice(), alpn, minute, shard, now))
        },
        Err(cause) => {
            let mut text = String::from_str("DHT shard query task failed for alpn=");
            let alpn_text = text_of_bytes(alpn);
            let minute_text = decimal_text(minute);
            let shard_text = decimal_text(shard as u64);
            text.append(alpn_text.as_str());
            text.append(" minute=");
            text.append(minute_text.as_str());
            text.append(" shard=");
            text.append(shard_text.as_str());
            text.append(": ");
            text.append(cause.as_str());
            assert(text@ =~= query_failed_text(alpn@, minute, shard, cause@));
            Err(Error::dht_discovery(text))
        },
    }
}

/// The readable buckets are what the stored values decode to.
pub proof fn readable_buckets_are_stored(values: Seq<Seq<u8>>, bucket: BucketView)
    ensures
        readable_buckets(values).contains(bucket) <==> exists|i: int|
            0 <= i < values.len() && bucket_read(#[trigger] values[i]) == Some(bucket),
    decreases values.len(),
{
    let all = readable_buckets(values);
    if values.len() > 0 {
        let rest = values.drop_last();
        let last = values.last();
        let earlier = readable_buckets(rest);
        readable_buckets_are_stored(rest, bucket);
        if all.contains(bucket) {
            let k = choose|k: int| 0 <= k < all.len() && all[k] == bucket;
            if k < earlier.len() {
                assert(earlier[k] == bucket);
                let i = choose|i: int|
                    0 <= i < rest.len() && bucket_read(#[trigger] rest[i]) == Some(bucket);
                assert(values[i] == rest[i]);
            } else {
                assert(bucket_read(values[values.len() - 1]) == Some(bucket));
            }
        }
        if exists|i: int| 0 <= i < values.len() && bucket_read(#[trigger] values[i]) == Some(bucket) {
            let i = choose|i: int|
                0 <= i < values.len() && bucket_read(#[trigger] values[i]) == Some(bucket);
            if i < rest.len() {
                assert(rest[i] == values[i]);
                let k = choose|k: int| 0 <= k < earlier.len() && earlier[k] == bucket;
                assert(all[k] == bucket);
            } else {
                assert(all[all.len() - 1] == bucket);
            }
        }
    }
}

/// Every node with a current, signed ad in a stored bucket is found: an ad that was published by
/// `now`, has not expired by `now`, and carries its node's signature for the service, minute and
/// shard is in the answer, or a later one of the node is.
pub proof fn current_ads_are_resolved(
    values: Seq<Seq<u8>>,
    alpn: Seq<u8>,
    minute: u64,
    shard: u8,
    now: u64,
    ads: Seq<SignedAdView>,
    bucket: BucketView,
    signed: SignedAdView,
)
    requires
        resolved_from(values, alpn, minute, shard, now, ads),
        readable_buckets(values).contains(bucket),
        bucket.version == DHT_BUCKET_VERSION,
        bucket.ads.contains(signed),
        signed.ad.published_at <= now < signed.ad.expires_at,
        is_endpoint_key(signed.ad.node_id),
        signature_verifies(
            signed.ad.node_id,
            ad_message(alpn, minute, shard, signed.ad),
            signed.signature,
        ),
    ensures
        exists|k: int|
            {
                &&& 0 <= k < ads.len()
                &&& (#[trigger] ads[k]).ad.node_id == signed.ad.node_id
                &&& ads[k].ad.published_at >= signed.ad.published_at
            },
{
    let buckets = readable_buckets(values);
    valid_ad_is_signed_and_current(signed, alpn, minute, shard, now);
    let b = choose|b: int| 0 <= b < buckets.len() && buckets[b] == bucket;
    assert(buckets[b].version == DHT_BUCKET_VERSION);
    assert(counts_in(buckets, signed, alpn, minute, shard, now));
    merge_keeps_the_newest_of_each_node(buckets, alpn, minute, shard, now, ads);
}

/// Whatever is found is current and signed: it stands in a stored bucket, has not expired by `now`,
/// was not published more than five minutes after `now`, and carries its node's signature. There is
/// one ad per node, and those published later come first.
pub proof fn resolved_ads_are_current(
    values: Seq<Seq<u8>>,
    alpn: Seq<u8>,
    minute: u64,
    shard: u8,
    now: u64,
    ads: Seq<SignedAdView>,
    k: int,
)
    requires
        resolved_from(values, alpn, minute, shard, now, ads),
        0 <= k < ads.len(),
    ensures
        now < ads[k].ad.expires_at,
        ads[k].ad.published_at <= ads[k].ad.expires_at,
        ads[k].ad.published_at <= now + 300,
        is_endpoint_key(ads[k].ad.node_id),
        signature_verifies(
            ads[k].ad.node_id,
            ad_message(alpn, minute, shard, ads[k].ad),
            ads[k].signature,
        ),
        exists|bucket: BucketView| #[trigger]
            readable_buckets(values).contains(bucket) && bucket.version == DHT_BUCKET_VERSION
                && bucket.ads.contains(ads[k]),
        forall|j: int|
            0 <= j < k ==> (#[trigger] ads[j]).ad.node_id != ads[k].ad.node_id
                && ads[j].ad.published_at >= ads[k].ad.published_at,
{
    let buckets = readable_buckets(values);
    merge_keeps_the_newest_of_each_node(buckets, alpn, minute, shard, now, ads);
    assert(counts_in(buckets, ads[k], alpn, minute, shard, now));
    valid_ad_is_signed_and_current(ads[k], alpn, minute, shard, now);
    let b = choose|b: int|
        {
            &&& 0 <= b < buckets.len()
            &&& (#[trigger] buckets[b]).version == DHT_BUCKET_VERSION
            &&& buckets[b].ads.contains(ads[k])
            &&& ad_valid(ads[k], alpn, minute, shard, now)
        };
    assert(buckets.contains(buckets[b]));
}

} // verus!
