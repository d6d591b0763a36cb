//! DHT publisher for announcing services.

use super::resolver::{current_ads_are_resolved, decode_buckets, readable_buckets, resolved_from};
use super::resolver::{shard_target, ShardTarget};
use super::{derive_salt, derive_signing_key, minute_read, replica_choice, replica_shards};
use super::{shard_key_seed, shard_salt, DHT_AD_TTL_SECS, DHT_PUBLISH_RETRIES};
use crate::keys::{dht_public_key, is_endpoint_key, item_signature, public_key, signature_of};
use crate::keys::{signature_verifies, SecretKey};
use crate::octets::{byte_lists, copy_bytes, copy_texts, texts};
use crate::schedule::PublishSchedule;
use crate::swarm::record::merge::{best_of, candidates, upserted, valid_ads, wins};
use crate::swarm::record::merge::{lemma_winner_found, lemma_winner_not_preceded};
use crate::swarm::record::merge::upsert_keeps_one_per_node;
use crate::swarm::record::trim::{bucket_fits, is_trimming, removable, trimming_drops_the_oldest};
use crate::swarm::record::trim::trimming_keeps_preferred;
use crate::swarm::record::{ad_message, ad_timely, ad_valid, bucket_sized, bucket_wire};
use crate::swarm::record::{encode_bucket, lemma_bucket_sized, precedes, signed_ads, AdView};
use crate::swarm::record::{valid_ad_is_signed_and_current, BucketView, ServiceBucket};
use crate::swarm::record::{SignedAdView, SignedServiceAd};
use crate::swarm::record::DHT_BUCKET_VERSION;
use crate::text::joined_texts;
use crate::time::{duration_of_secs, secs, seconds_since_epoch, ClockReading};
use std::time::Duration;
use vstd::prelude::*;
use vstd::string::*;

verus! {

/// Configuration for DHT publishing.
#[derive(Debug)]
pub struct DhtPublisherConfig {
    /// Tags to put into published records (e.g., region/tier).
    pub tags: Vec<String>,
    /// How often to republish records.
    pub publish_interval: Duration,
}

impl Clone for DhtPublisherConfig {
    fn clone(&self) -> (r: DhtPublisherConfig)
        ensures
            texts(r.tags@) == texts(self.tags@),
            r.publish_interval == self.publish_interval,
    {
        DhtPublisherConfig {
            tags: copy_texts(self.tags.as_slice()),
            publish_interval: self.publish_interval,
        }
    }
}

impl Default for DhtPublisherConfig {
    fn default() -> (r: DhtPublisherConfig)
        ensures
            r.tags@ == Seq::<String>::empty(),
            r.publish_interval == duration_of_secs(30),
    {
        DhtPublisherConfig { tags: Vec::new(), publish_interval: secs(30) }
    }
}

/// One shard that a service is to be published into.
pub struct PublishJob {
    /// The service's ALPN.
    pub alpn: Vec<u8>,
    /// The shard.
    pub shard: u8,
}

impl View for PublishJob {
    type V = (Seq<u8>, u8);

    open spec fn view(&self) -> (Seq<u8>, u8) {
        (self.alpn@, self.shard)
    }
}

/// The contents of a list of jobs.
pub open spec fn job_list(jobs: Seq<PublishJob>) -> Seq<(Seq<u8>, u8)> {
    Seq::new(jobs.len(), |i: int| jobs[i]@)
}

/// A service with each of the shards.
pub open spec fn service_jobs(alpn: Seq<u8>, shards: Seq<u8>) -> Seq<(Seq<u8>, u8)> {
    Seq::new(shards.len(), |i: int| (alpn, shards[i]))
}

/// What a node publishes: each service, in order, into each of its shards for that service.
pub open spec fn publish_plan(node_id: Seq<u8>, services: Seq<Seq<u8>>) -> Seq<(Seq<u8>, u8)>
    decreases services.len(),
{
    if services.len() == 0 {
        Seq::empty()
    } else {
        publish_plan(node_id, services.drop_last()) + service_jobs(
            services.last(),
            replica_choice(node_id, services.last()),
        )
    }
}

/// Publishes service records to the DHT on a fixed interval, over a DHT client.
pub struct DhtPublisher<D> {
    dht: D,
    secret_key: SecretKey,
    services: Vec<Vec<u8>>,
    config: DhtPublisherConfig,
}

impl<D> DhtPublisher<D> {
    /// The DHT client.
    pub closed spec fn client(self) -> D {
        self.dht
    }

    /// The secret key of the node.
    pub closed spec fn key(self) -> Seq<u8> {
        self.secret_key@
    }

    /// The ALPNs of the services, in the order in which they were registered.
    pub closed spec fn registered(self) -> Seq<Seq<u8>> {
        byte_lists(self.services@)
    }

    /// The configuration.
    pub closed spec fn settings(self) -> DhtPublisherConfig {
        self.config
    }

    /// Create a publisher for a given DHT client and node key.
    #[must_use]
    pub fn new(dht: D, secret_key: SecretKey, config: DhtPublisherConfig) -> (r: DhtPublisher<D>)
        ensures
            r.client() == dht,
            r.key() == secret_key@,
            r.registered() == Seq::<Seq<u8>>::empty(),
            r.settings() == config,
    {
        let r = DhtPublisher { dht, secret_key, services: Vec::new(), config };
        assert(r.registered() =~= Seq::<Seq<u8>>::empty());
        r
    }

    /// Register a service ALPN to publish.
    pub fn add_service(&mut self, alpn: Vec<u8>)
        ensures
            final(self).registered() == old(self).registered().push(alpn@),
            final(self).client() == old(self).client(),
            final(self).key() == old(self).key(),
            final(self).settings() == old(self).settings(),
    {
        self.services.push(alpn);
        assert(self.registered() =~= old(self).registered().push(alpn@));
    }

    /// The DHT client.
    pub fn dht(&self) -> (r: &D)
        ensures
            *r == self.client(),
    {
        &self.dht
    }

    /// The configuration.
    pub fn config(&self) -> (r: &DhtPublisherConfig)
        ensures
            *r == self.settings(),
    {
        &self.config
    }

    /// When the services are published: once at the start, and then once per interval.
    pub fn schedule(&self) -> (r: PublishSchedule)
        ensures
            r.stands() is Initial,
    {
        PublishSchedule::new()
    }

    /// What is published in each round: every service into each of the node's shards for it.
    pub fn jobs(&self) -> (jobs: Vec<PublishJob>)
        ensures
            job_list(jobs@) == publish_plan(public_key(self.key()), self.registered()),
    {
        let node = self.secret_key.public();
        let ghost all = self.registered();
        let ghost node_id = node@;
        let mut jobs: Vec<PublishJob> = Vec::new();
        let mut i: usize = 0;
        assert(all.take(0) =~= Seq::empty());
        assert(job_list(jobs@) =~= Seq::empty());
        while i < self.services.len()
            invariant
                i <= self.services.len(),
                all == byte_lists(self.services@),
                node_id == node@,
                job_list(jobs@) == publish_plan(node_id, all.take(i as int)),
            decreases self.services.len() - i,
        {
            let shards = replica_shards(node.as_bytes(), self.services[i].as_slice());
            let ghost earlier = job_list(jobs@);
            let ghost alpn = all[i as int];
            let mut k: usize = 0;
            assert(earlier + service_jobs(alpn, shards@.take(0)) =~= earlier);
            while k < shards.len()
                invariant
                    k <= shards.len(),
                    i < self.services.len(),
                    alpn == self.services@[i as int]@,
                    job_list(jobs@) == earlier + service_jobs(alpn, shards@.take(k as int)),
                decreases shards.len() - k,
            {
                let ghost before = job_list(jobs@);
                jobs.push(
                    PublishJob { alpn: copy_bytes(self.services[i].as_slice()), shard: shards[k] },
                );
                k = k + 1;
                assert(job_list(jobs@) =~= before.push((alpn, shards@[k - 1])));
                assert(job_list(jobs@) =~= earlier + service_jobs(alpn, shards@.take(k as int)));
            }
            i = i + 1;
            assert(shards@.take(k as int) =~= shards@);
            assert(all.take(i as int).drop_last() =~= all.take(i - 1));
        }
        assert(all.take(i as int) =~= all);
        jobs
    }

    /// Begin to publish a service into a shard, at the second that the wall clock gives.
    ///
    /// # Errors
    ///
    /// Returns an error if the system clock is before the Unix epoch.
    pub fn start(&self, alpn: &[u8], shard: u8) -> (r: Result<ShardPublication, String>)
        ensures
            match r {
                Ok(publication) => exists|reading: ClockReading|
                    {
                        &&& #[trigger] reading.gave() is Ok
                        &&& is_fresh_publication(
                            publication.view(),
                            self.key(),
                            alpn@,
                            shard,
                            texts(self.settings().tags@),
                            reading.gave()->Ok_0,
                        )
                    },
                Err(e) => exists|reading: ClockReading|
                    {
                        &&& #[trigger] reading.gave() is Err
                        &&& e@ == "system clock before unix epoch: "@ + reading.gave()->Err_0@
                    },
            },
    {
        match unix_timestamp_secs() {
            Ok(now) => {
                let begun = ShardPublication::begin(
                    &self.secret_key,
                    alpn,
                    shard,
                    self.config.tags.as_slice(),
                    now,
                );
                assert(is_fresh_publication(
                    begun->Ok_0@,
                    self.key(),
                    alpn@,
                    shard,
                    texts(self.settings().tags@),
                    now,
                ));
                begun
            },
            Err(e) => Err(e),
        }
    }
}

/// The time in seconds since the Unix epoch, as the clock gives it.
///
/// # Errors
///
/// Returns an error if the system clock is before the Unix epoch.
pub fn unix_timestamp_secs() -> (r: Result<u64, String>)
    ensures
        exists|reading: ClockReading| is_timestamp_of(r, #[trigger] reading.gave()),
{
    let reading = seconds_since_epoch();
    let ghost read = reading.gave();
    timestamp_of(reading.outcome())
}

/// The time is the seconds that the clock gave, or the error says that the clock stands before the
/// Unix epoch.
pub open spec fn is_timestamp_of(r: Result<u64, String>, reading: Result<u64, String>) -> bool {
    match reading {
        Ok(now) => r == Ok::<u64, String>(now),
        Err(cause) => r is Err && r->Err_0@ == "system clock before unix epoch: "@ + cause@,
    }
}

/// The time that a reading of the clock gives, or the error for a clock before the Unix epoch.
pub fn timestamp_of(reading: Result<u64, String>) -> (r: Result<u64, String>)
    ensures
        is_timestamp_of(r, reading),
{
    match reading {
        Ok(now) => Ok(now),
        Err(cause) => Err(joined_texts("system clock before unix epoch: ", cause.as_str())),
    }
}

/// A value that the DHT holds for a shard.
pub struct ShardItem {
    /// The sequence number that it was stored with.
    pub seq: i64,
    /// The stored bytes.
    pub value: Vec<u8>,
}

/// The stored bytes of the items.
pub open spec fn item_values(items: Seq<ShardItem>) -> Seq<Seq<u8>> {
    Seq::new(items.len(), |i: int| items[i].value@)
}

/// The number is the highest sequence number of the items; there is none where there are no items.
pub open spec fn is_latest_seq(items: Seq<ShardItem>, latest: Option<i64>) -> bool {
    match latest {
        Some(seq) => {
            &&& exists|i: int| 0 <= i < items.len() && (#[trigger] items[i]).seq == seq
            &&& forall|i: int| 0 <= i < items.len() ==> (#[trigger] items[i]).seq <= seq
        },
        None => items.len() == 0,
    }
}

/// What a shard holds: the ads that count at the time `now`, and the highest sequence number.
pub fn read_shard_state(
    items: &[ShardItem],
    alpn: &[u8],
    minute: u64,
    shard: u8,
    now: u64,
) -> (r: (Vec<SignedServiceAd>, Option<i64>))
    ensures
        resolved_from(item_values(items@), alpn@, minute, shard, now, signed_ads(r.0@)),
        is_latest_seq(items@, r.1),
{
    let mut values: Vec<Vec<u8>> = Vec::new();
    let mut latest: Option<i64> = None;
    let mut i: usize = 0;
    while i < items.len()
        invariant
            i <= items.len(),
            values.len() == i,
            forall|j: int| 0 <= j < i ==> #[trigger] values@[j]@ == items@[j].value@,
            is_latest_seq(items@.take(i as int), latest),
        decreases items.len() - i,
    {
        values.push(copy_bytes(items[i].value.as_slice()));
        let seq: i64 = items[i].seq;
        let ghost before = items@.take(i as int);
        let ghost after = items@.take(i + 1);
        assert(after =~= before.push(items@[i as int]));
        let higher = match latest {
            Some(old) => seq > old,
            None => true,
        };
        proof {
            assert(after[i as int].seq == seq);
            if latest is Some {
                let j = choose|j: int| 0 <= j < before.len() && (#[trigger] before[j]).seq == latest->0;
                assert(after[j].seq == latest->0);
            }
        }
        if higher {
            latest = Some(seq);
        }
        assert(is_latest_seq(after, latest)) by {
            assert forall|j: int| 0 <= j < after.len() implies (#[trigger] after[j]).seq
                <= latest->0 by {
                if j < i {
                    assert(after[j] == before[j]);
                }
            }
        }
        i = i + 1;
    }
    assert(items@.take(i as int) =~= items@);
    assert(byte_lists(values@) =~= item_values(items@));
    let buckets = decode_buckets(values.as_slice());
    (ServiceBucket::merge_valid(buckets.as_slice(), alpn, minute, shard, now), latest)
}

/// The content of a publication of a service into a shard.
pub ghost struct PublicationView {
    pub alpn: Seq<u8>,
    pub minute: u64,
    pub shard: u8,
    pub local_ad: SignedAdView,
    pub attempts: nat,
}

/// The end of an ad's life.
pub open spec fn expiry(published_at: u64) -> u64 {
    if published_at + DHT_AD_TTL_SECS > u64::MAX {
        u64::MAX
    } else {
        (published_at + DHT_AD_TTL_SECS) as u64
    }
}

/// The publication of a service into a shard, at the given time, before any attempt.
pub open spec fn is_fresh_publication(
    publication: PublicationView,
    secret: Seq<u8>,
    alpn: Seq<u8>,
    shard: u8,
    tags: Seq<Seq<char>>,
    published_at: u64,
) -> bool {
    &&& publication.alpn == alpn
    &&& publication.minute == published_at / 60
    &&& publication.shard == shard
    &&& publication.attempts == 0
    &&& publication.local_ad.ad == (AdView {
        node_id: public_key(secret),
        tags,
        published_at,
        expires_at: expiry(published_at),
    })
    &&& publication.local_ad.signature == signature_of(
        secret,
        ad_message(alpn, (published_at / 60) as u64, shard, publication.local_ad.ad),
    )
    &&& forall|now: u64| #[trigger]
        ad_valid(publication.local_ad, alpn, (published_at / 60) as u64, shard, now) == ad_timely(
            publication.local_ad.ad,
            now,
        )
}

/// How a store request ended.
pub enum PutOutcome {
    /// The DHT took the value.
    Stored,
    /// Another node stored a value in between.
    Contended,
    /// The DHT did not answer as needed, for the given cause.
    QueryFailed(String),
    /// The task that made the request did not finish, for the given cause.
    TaskFailed(String),
}

/// What is to be stored for a shard.
pub struct ShardPut {
    /// The public key that the value is stored under.
    pub public_key: [u8; 32],
    /// The signature of the value, with its sequence number and salt, under that key.
    pub signature: [u8; 64],
    /// The salt that the value is stored under.
    pub salt: Vec<u8>,
    /// The encoded bucket.
    pub value: Vec<u8>,
    /// The sequence number to store it with.
    pub seq: i64,
    /// The sequence number that is replaced, if there is one.
    pub expected: Option<i64>,
}

/// `kept` is the bucket to store over what the shard holds: its ads with the local one taken in,
/// trimmed in favour of the local node.
pub open spec fn is_next_bucket(
    publication: PublicationView,
    values: Seq<Seq<u8>>,
    held: Seq<SignedAdView>,
    kept: BucketView,
) -> bool {
    &&& resolved_from(
        values,
        publication.alpn,
        publication.minute,
        publication.shard,
        publication.local_ad.ad.published_at,
        held,
    )
    &&& kept.version == DHT_BUCKET_VERSION
    &&& bucket_sized(kept)
    &&& is_trimming(
        BucketView { version: DHT_BUCKET_VERSION, ads: upserted(held, publication.local_ad) },
        kept,
        Some(publication.local_ad.ad.node_id),
    )
}

/// The publication of a service into one shard: at most a few attempts to read what the shard
/// holds, take the local ad in, and store the result.
pub struct ShardPublication {
    alpn: Vec<u8>,
    minute: u64,
    shard: u8,
    local_ad: SignedServiceAd,
    attempts: usize,
}

impl View for ShardPublication {
    type V = PublicationView;

    closed spec fn view(&self) -> PublicationView {
        PublicationView {
            alpn: self.alpn@,
            minute: self.minute,
            shard: self.shard,
            local_ad: self.local_ad@,
            attempts: self.attempts as nat,
        }
    }
}

impl ShardPublication {
    /// Begin to publish a service into a shard, at the given time.
    ///
    /// # Errors
    ///
    /// Signing does not fail, so that a publication always begins.
    pub fn begin(
        secret_key: &SecretKey,
        alpn: &[u8],
        shard: u8,
        tags: &[String],
        published_at: u64,
    ) -> (r: Result<ShardPublication, String>)
        ensures
            r is Ok,
            is_fresh_publication(
                r->Ok_0@,
                secret_key@,
                alpn@,
                shard,
                texts(tags@),
                published_at,
            ),
    {
        let minute: u64 = published_at / 60;
        let expires_at: u64 = published_at.saturating_add(DHT_AD_TTL_SECS);
        match SignedServiceAd::sign(
            secret_key,
            alpn,
            minute,
            shard,
            tags,
            published_at,
            expires_at,
        ) {
            Some(local_ad) => Ok(
                ShardPublication { alpn: copy_bytes(alpn), minute, shard, local_ad, attempts: 0 },
            ),
            None => Err(String::from_str("sign service ad")),
        }
    }

    /// Where the shard's bucket is read from.
    pub fn target(&self) -> (r: ShardTarget)
        ensures
            r.public_key@ == dht_public_key(
                shard_key_seed(self@.alpn, self@.minute, self@.shard),
            ),
            r.salt@ == shard_salt(self@.alpn, self@.minute, self@.shard),
    {
        shard_target(self.alpn.as_slice(), self.minute, self.shard)
    }

    /// What to store over the items that the shard holds.
    ///
    /// # Errors
    ///
    /// Returns an error if the local ad alone is too large for a bucket.
    pub fn prepare(&self, items: &[ShardItem]) -> (r: Result<ShardPut, String>)
        requires
            forall|i: int| 0 <= i < items.len() ==> (#[trigger] items@[i]).seq < i64::MAX,
        ensures
            exists|held: Seq<SignedAdView>, kept: BucketView|
                {
                    &&& #[trigger] is_next_bucket(self@, item_values(items@), held, kept)
                    &&& match r {
                        Ok(put) => bucket_fits(kept) && put.value@ == bucket_wire(kept),
                        Err(e) => !bucket_fits(kept) && e@
                            == "local service advertisement exceeds shard bucket size"@,
                    }
                },
            r matches Ok(put) ==> {
                &&& put.public_key@ == dht_public_key(
                    shard_key_seed(self@.alpn, self@.minute, self@.shard),
                )
                &&& put.signature@ == item_signature(
                    shard_key_seed(self@.alpn, self@.minute, self@.shard),
                    put.value@,
                    put.seq,
                    put.salt@,
                )
                &&& put.salt@ == shard_salt(self@.alpn, self@.minute, self@.shard)
                &&& is_latest_seq(items@, put.expected)
                &&& put.seq == match put.expected {
                    Some(latest) => latest + 1,
                    None => 1,
                }
            },
    {
        let (ads, latest) = read_shard_state(
            items,
            self.alpn.as_slice(),
            self.minute,
            self.shard,
            self.local_ad.published_at(),
        );
        let ghost held = signed_ads(ads@);
        let mut bucket = ServiceBucket::new(ads);
        bucket.upsert(self.local_ad.clone());
        let fits = match bucket.trim_to_size(Some(self.local_ad.node_id())) {
            Some(fits) => fits,
            None => false,
        };
        let ghost kept = bucket@;
        proof {
            lemma_bucket_sized(bucket);
            assert(is_next_bucket(self@, item_values(items@), held, kept));
        }
        if !fits {
            return Err(
                String::from_str("local service advertisement exceeds shard bucket size"),
            );
        }
        let value = match encode_bucket(&bucket) {
            Some(value) => value,
            None => {
                return Err(String::from_str("serialize trimmed service bucket"));
            },
        };
        let seq: i64 = match latest {
            Some(latest) => latest + 1,
            None => 1,
        };
        let signing_key = derive_signing_key(self.alpn.as_slice(), self.minute, self.shard);
        let salt = derive_salt(self.alpn.as_slice(), self.minute, self.shard);
        Ok(
            ShardPut {
                public_key: signing_key.verifying_key(),
                signature: signing_key.sign_item(value.as_slice(), seq, salt.as_slice()),
                salt,
                value,
                seq,
                expected: latest,
            },
        )
    }

    /// Takes note of how the store request ended. Gives the outcome of the publication, or nothing
    /// where another attempt is to be made.
    pub fn on_put(&mut self, outcome: PutOutcome) -> (r: Option<Result<(), String>>)
        requires
            old(self)@.attempts < DHT_PUBLISH_RETRIES,
        ensures
            final(self)@ == (PublicationView {
                attempts: old(self)@.attempts + 1,
                ..old(self)@
            }),
            match outcome {
                PutOutcome::Stored => r == Some(Ok::<(), String>(())),
                PutOutcome::Contended => if final(self)@.attempts < DHT_PUBLISH_RETRIES {
                    r is None
                } else {
                    r is Some && r->0 is Err && r->0->Err_0@
                        == "DHT shard remained contended after retries"@
                },
                PutOutcome::QueryFailed(cause) => r is Some && r->0 is Err && r->0->Err_0@
                    == "put mutable shard: "@ + cause@,
                PutOutcome::TaskFailed(cause) => r is Some && r->0 is Err && r->0->Err_0@
                    == "publish task panicked: "@ + cause@,
            },
    {
        self.attempts = self.attempts + 1;
        match outcome {
            PutOutcome::Stored => Some(Ok(())),
            PutOutcome::Contended => if self.attempts < DHT_PUBLISH_RETRIES {
                None
            } else {
                Some(Err(String::from_str("DHT shard remained contended after retries")))
            },
            PutOutcome::QueryFailed(cause) => Some(
                Err(joined_texts("put mutable shard: ", cause.as_str())),
            ),
            PutOutcome::TaskFailed(cause) => Some(
                Err(joined_texts("publish task panicked: ", cause.as_str())),
            ),
        }
    }
}

/// The candidates of a list of buckets hold every valid ad of each of them.
proof fn lemma_candidates_hold(
    buckets: Seq<BucketView>,
    b: int,
    k: int,
    alpn: Seq<u8>,
    minute: u64,
    shard: u8,
    now: u64,
)
    requires
        0 <= b < buckets.len(),
        buckets[b].version == DHT_BUCKET_VERSION,
        0 <= k < buckets[b].ads.len(),
        ad_valid(buckets[b].ads[k], alpn, minute, shard, now),
    ensures
        candidates(buckets, alpn, minute, shard, now).contains(buckets[b].ads[k]),
    decreases buckets.len(),
{
    let ad = buckets[b].ads[k];
    let all = candidates(buckets, alpn, minute, shard, now);
    let earlier = candidates(buckets.drop_last(), alpn, minute, shard, now);
    if b == buckets.len() - 1 {
        let valid = |ad: SignedAdView| ad_valid(ad, alpn, minute, shard, now);
        buckets[b].ads.lemma_filter_contains(valid, k);
        let filtered = valid_ads(buckets[b].ads, alpn, minute, shard, now);
        assert(filtered.contains(ad));
        let j = choose|j: int| 0 <= j < filtered.len() && filtered[j] == ad;
        assert(all[earlier.len() + j] == ad);
    } else {
        lemma_candidates_hold(buckets.drop_last(), b, k, alpn, minute, shard, now);
        let j = choose|j: int| 0 <= j < earlier.len() && earlier[j] == ad;
        assert(all[j] == ad);
    }
}

/// What is published is found: where the local ad is newer than what the shard held of the node,
/// whoever reads the stored bucket back, alone or among others, while the ad lasts, finds an ad of
/// the node that is at least as new.
pub proof fn published_ad_is_resolved(
    publication: PublicationView,
    values: Seq<Seq<u8>>,
    held: Seq<SignedAdView>,
    kept: BucketView,
    read_back: Seq<BucketView>,
    now: u64,
    resolved: Seq<SignedAdView>,
)
    requires
        is_next_bucket(publication, values, held, kept),
        forall|k: int|
            0 <= k < held.len() && (#[trigger] held[k]).ad.node_id
                == publication.local_ad.ad.node_id ==> precedes(publication.local_ad, held[k]),
        read_back.contains(kept),
        ad_valid(
            publication.local_ad,
            publication.alpn,
            publication.minute,
            publication.shard,
            now,
        ),
        best_of(
            candidates(
                read_back,
                publication.alpn,
                publication.minute,
                publication.shard,
                now,
            ),
            resolved,
        ),
    ensures
        exists|k: int|
            0 <= k < resolved.len() && (#[trigger] resolved[k]).ad.node_id
                == publication.local_ad.ad.node_id && !precedes(
                publication.local_ad,
                resolved[k],
            ),
{
    let ad = publication.local_ad;
    let bucket = BucketView { version: DHT_BUCKET_VERSION, ads: upserted(held, ad) };
    upsert_keeps_one_per_node(held, ad);
    let x = choose|x: SignedAdView| #[trigger]
        bucket.ads.contains(x) && x.ad.node_id == ad.ad.node_id;
    assert(x == ad) by {
        if x != ad {
            assert(held.contains(x));
            let k = choose|k: int| 0 <= k < held.len() && held[k] == x;
            assert(precedes(ad, held[k]));
        }
    }
    trimming_keeps_preferred(bucket, kept, Some(ad.ad.node_id));
    assert(!removable(ad, Some(ad.ad.node_id)));
    assert(kept.ads.contains(ad));
    let k = choose|k: int| 0 <= k < kept.ads.len() && kept.ads[k] == ad;
    let b = choose|b: int| 0 <= b < read_back.len() && read_back[b] == kept;
    lemma_candidates_hold(
        read_back,
        b,
        k,
        publication.alpn,
        publication.minute,
        publication.shard,
        now,
    );
    let all = candidates(
        read_back,
        publication.alpn,
        publication.minute,
        publication.shard,
        now,
    );
    let m = choose|m: int| 0 <= m < all.len() && all[m] == ad;
    lemma_winner_found(all, m);
    let w = choose|w: int| #[trigger] wins(all, w) && all[w].ad.node_id == ad.ad.node_id;
    assert(resolved.contains(all[w]));
    let r = choose|r: int| 0 <= r < resolved.len() && resolved[r] == all[w];
    assert(!precedes(ad, all[w])) by {
        lemma_winner_not_preceded(all, w, m);
    }
    assert(resolved[r].ad.node_id == ad.ad.node_id);
}

/// A publication is stamped with the second it was begun at: that is when its ad was published, it
/// belongs to the minute of that second, and it lasts two minutes from then. The ad is the node's
/// own, with its tags, and it counts in the shard's bucket of that minute from the stamp on until it
/// expires, and no longer.
pub proof fn publication_is_stamped_with_its_second(
    publication: PublicationView,
    secret: Seq<u8>,
    alpn: Seq<u8>,
    shard: u8,
    tags: Seq<Seq<char>>,
    second: u64,
    now: u64,
)
    requires
        is_fresh_publication(publication, secret, alpn, shard, tags, second),
    ensures
        publication.local_ad.ad.published_at == second,
        60 * publication.minute <= second < 60 * publication.minute + 60,
        second <= u64::MAX - 120 ==> publication.local_ad.ad.expires_at == second + 120,
        publication.alpn == alpn,
        publication.shard == shard,
        publication.attempts == 0,
        publication.local_ad.ad.node_id == public_key(secret),
        publication.local_ad.ad.tags == tags,
        second <= now < publication.local_ad.ad.expires_at ==> ad_valid(
            publication.local_ad,
            alpn,
            publication.minute,
            shard,
            now,
        ),
        now >= second + 120 ==> !ad_valid(
            publication.local_ad,
            alpn,
            publication.minute,
            shard,
            now,
        ),
{
    valid_ad_is_signed_and_current(publication.local_ad, alpn, publication.minute, shard, now);
    assert(publication.minute == (second / 60) as u64);
    assert(ad_valid(publication.local_ad, alpn, (second / 60) as u64, shard, now) == ad_timely(
        publication.local_ad.ad,
        now,
    ));
}

/// Who asks for the current and the previous minute within a minute of a publication asks for the
/// minute that it was published in, and finds it valid there.
pub proof fn publication_is_asked_for(
    publication: PublicationView,
    secret: Seq<u8>,
    alpn: Seq<u8>,
    shard: u8,
    tags: Seq<Seq<char>>,
    published: Result<u64, String>,
    asked: Result<u64, String>,
)
    requires
        published is Ok,
        asked is Ok,
        is_fresh_publication(publication, secret, alpn, shard, tags, published->Ok_0),
        published->Ok_0 <= asked->Ok_0 < published->Ok_0 + 60,
        asked->Ok_0 < u64::MAX,
    ensures
        minute_read(asked, 0) == Some(publication.minute) || minute_read(asked, -1i64) == Some(
            publication.minute,
        ),
        ad_valid(publication.local_ad, alpn, publication.minute, shard, asked->Ok_0),
        minute_read(published, 0) == Some(publication.minute),
{
    let second = published->Ok_0;
    let now = asked->Ok_0;
    publication_is_stamped_with_its_second(publication, secret, alpn, shard, tags, second, now);
    if second > u64::MAX - 120 {
        assert(publication.local_ad.ad.expires_at == u64::MAX);
    }
}

/// What is due in a round is every service in every shard that the node has for it, and nothing
/// else.
pub proof fn plan_covers_every_service_and_shard(
    node_id: Seq<u8>,
    services: Seq<Seq<u8>>,
    alpn: Seq<u8>,
    shard: u8,
)
    ensures
        publish_plan(node_id, services).contains((alpn, shard)) <==> services.contains(alpn)
            && replica_choice(node_id, alpn).contains(shard),
    decreases services.len(),
{
    let plan = publish_plan(node_id, services);
    if services.len() > 0 {
        let rest = services.drop_last();
        let last = services.last();
        let earlier = publish_plan(node_id, rest);
        let shards = replica_choice(node_id, last);
        let jobs = service_jobs(last, shards);
        plan_covers_every_service_and_shard(node_id, rest, alpn, shard);
        assert(services.contains(alpn) <==> rest.contains(alpn) || alpn == last) by {
            if services.contains(alpn) && alpn != last {
                let i = choose|i: int| 0 <= i < services.len() && services[i] == alpn;
                assert(rest[i] == alpn);
            }
            if rest.contains(alpn) {
                let i = choose|i: int| 0 <= i < rest.len() && rest[i] == alpn;
                assert(services[i] == alpn);
            }
            assert(services[services.len() - 1] == last);
        }
        if plan.contains((alpn, shard)) {
            let k = choose|k: int| 0 <= k < plan.len() && plan[k] == (alpn, shard);
            if k < earlier.len() {
                assert(earlier[k] == (alpn, shard));
            } else {
                assert(jobs[k - earlier.len()] == (alpn, shard));
                assert(shards[k - earlier.len()] == shard);
            }
        }
        if earlier.contains((alpn, shard)) {
            let k = choose|k: int| 0 <= k < earlier.len() && earlier[k] == (alpn, shard);
            assert(plan[k] == (alpn, shard));
        }
        if alpn == last && shards.contains(shard) {
            let k = choose|k: int| 0 <= k < shards.len() && shards[k] == shard;
            assert(jobs[k] == (alpn, shard));
            assert(plan[earlier.len() + k] == (alpn, shard));
        }
    }
}

/// A time that was read off the clock is the seconds that the clock gave, and there is one exactly
/// if the clock gave one.
pub proof fn timestamp_is_what_the_clock_gave(r: Result<u64, String>, reading: Result<u64, String>)
    requires
        is_timestamp_of(r, reading),
    ensures
        r is Ok <==> reading is Ok,
        r is Ok ==> r->Ok_0 == reading->Ok_0,
{
}

/// The sequence number that is replaced is one that the shard holds, and none that it holds is
/// higher; there is none exactly if the shard holds nothing.
pub proof fn latest_seq_is_the_highest(items: Seq<ShardItem>, latest: Option<i64>, i: int)
    requires
        is_latest_seq(items, latest),
        0 <= i < items.len(),
    ensures
        latest is Some,
        items[i].seq <= latest->0,
        exists|j: int| 0 <= j < items.len() && (#[trigger] items[j]).seq == latest->0,
{
}

/// Publishing leaves other nodes their places: of a node that has a current, signed ad in a bucket
/// that the shard holds, the bucket that is stored has an ad that is no older, unless it was dropped
/// because the bucket was full.
pub proof fn publishing_keeps_other_nodes(
    publication: PublicationView,
    values: Seq<Seq<u8>>,
    held: Seq<SignedAdView>,
    kept: BucketView,
    bucket: BucketView,
    signed: SignedAdView,
)
    requires
        is_next_bucket(publication, values, held, kept),
        readable_buckets(values).contains(bucket),
        bucket.version == DHT_BUCKET_VERSION,
        bucket.ads.contains(signed),
        signed.ad.node_id != publication.local_ad.ad.node_id,
        signed.ad.published_at <= publication.local_ad.ad.published_at < signed.ad.expires_at,
        is_endpoint_key(signed.ad.node_id),
        signature_verifies(
            signed.ad.node_id,
            ad_message(publication.alpn, publication.minute, publication.shard, signed.ad),
            signed.signature,
        ),
    ensures
        (exists|ad: SignedAdView| #[trigger]
            kept.ads.contains(ad) && ad.ad.node_id == signed.ad.node_id && ad.ad.published_at
                >= signed.ad.published_at) || (exists|ad: SignedAdView|
            bucket_wire(
                BucketView { version: DHT_BUCKET_VERSION, ads: #[trigger] kept.ads.push(ad) },
            ).len() > 1000),
{
    let local = publication.local_ad;
    let now = local.ad.published_at;
    let all = BucketView { version: DHT_BUCKET_VERSION, ads: upserted(held, local) };
    current_ads_are_resolved(
        values,
        publication.alpn,
        publication.minute,
        publication.shard,
        now,
        held,
        bucket,
        signed,
    );
    let k = choose|k: int|
        {
            &&& 0 <= k < held.len()
            &&& (#[trigger] held[k]).ad.node_id == signed.ad.node_id
            &&& held[k].ad.published_at >= signed.ad.published_at
        };
    assert(held.contains(held[k]));
    upsert_keeps_one_per_node(held, local);
    assert(all.ads.contains(held[k]));
    if !kept.ads.contains(held[k]) {
        trimming_drops_the_oldest(all, kept, Some(local.ad.node_id), held[k]);
    }
}

} // verus!
