//! DHT record types for signed service advertisements.

pub mod merge;
pub mod trim;

use crate::keys::{is_endpoint_key, public_key, signature_of, signature_verifies, EndpointId, SecretKey};
use crate::octets::{bytes_before, copy_texts, has_all_texts, holds_all_texts, lex_less, texts};
use crate::octets::{lemma_lex_irreflexive, lemma_lex_total, lemma_lex_transitive};
use crate::wire::{joined, sized_bytes, texts_wire, varint};
use crate::wire::{lemma_sized_prefix, lemma_split, lemma_texts_prefix, lemma_varint_prefix};
use vstd::prelude::*;

verus! {

/// Format version of buckets and signatures.
pub const DHT_BUCKET_VERSION: u8 = 2;

/// The most bytes that a stored bucket may take.
pub const DHT_MAX_BUCKET_BYTES: usize = 1000;

/// How far in the future a publication time may lie.
pub const MAX_FUTURE_SKEW_SECS: u64 = 300;

/// The content of a service advertisement.
pub ghost struct AdView {
    pub node_id: Seq<u8>,
    pub tags: Seq<Seq<char>>,
    pub published_at: u64,
    pub expires_at: u64,
}

/// The content of a signed service advertisement.
pub ghost struct SignedAdView {
    pub ad: AdView,
    pub signature: Seq<u8>,
}

/// The content of a bucket.
pub ghost struct BucketView {
    pub version: u8,
    pub ads: Seq<SignedAdView>,
}

/// The encoding of an advertisement.
pub open spec fn ad_wire(ad: AdView) -> Seq<u8> {
    ad.node_id + (texts_wire(ad.tags) + (varint(ad.published_at as nat) + varint(
        ad.expires_at as nat,
    )))
}

/// The encoding of a signed advertisement.
pub open spec fn signed_ad_wire(signed: SignedAdView) -> Seq<u8> {
    ad_wire(signed.ad) + signed.signature
}

/// The encoding of a bucket.
pub open spec fn bucket_wire(bucket: BucketView) -> Seq<u8> {
    seq![bucket.version] + (varint(bucket.ads.len()) + joined(
        Seq::new(bucket.ads.len(), |i: int| signed_ad_wire(bucket.ads[i])),
    ))
}

/// Node ids and signatures have the sizes that keys and signatures have.
pub open spec fn bucket_sized(bucket: BucketView) -> bool {
    forall|i: int|
        0 <= i < bucket.ads.len() ==> #[trigger] bucket.ads[i].ad.node_id.len() == 32
            && bucket.ads[i].signature.len() == 64
}

/// The bytes that a node signs to advertise a service in one shard during one minute.
pub open spec fn ad_message(alpn: Seq<u8>, minute: u64, shard: u8, ad: AdView) -> Seq<u8> {
    seq![DHT_BUCKET_VERSION] + (sized_bytes(alpn) + (varint(minute as nat) + (seq![shard]
        + ad_wire(ad))))
}

/// The publication and expiry times make sense at the time `now`.
pub open spec fn ad_timely(ad: AdView, now: u64) -> bool {
    &&& now < ad.expires_at
    &&& ad.published_at <= ad.expires_at
    &&& ad.published_at <= now + MAX_FUTURE_SKEW_SECS
}

/// The advertisement counts, at the time `now`, in the bucket of the shard and minute.
pub open spec fn ad_valid(
    signed: SignedAdView,
    alpn: Seq<u8>,
    minute: u64,
    shard: u8,
    now: u64,
) -> bool {
    &&& ad_timely(signed.ad, now)
    &&& is_endpoint_key(signed.ad.node_id)
    &&& signature_verifies(
        signed.ad.node_id,
        ad_message(alpn, minute, shard, signed.ad),
        signed.signature,
    )
}

/// `a` comes before `b`: published later, or else expiring later, or else of the smaller node id.
pub open spec fn precedes(a: SignedAdView, b: SignedAdView) -> bool {
    ||| a.ad.published_at > b.ad.published_at
    ||| a.ad.published_at == b.ad.published_at && a.ad.expires_at > b.ad.expires_at
    ||| a.ad.published_at == b.ad.published_at && a.ad.expires_at == b.ad.expires_at && lex_less(
        a.ad.node_id,
        b.ad.node_id,
    )
}

/// The contents of a list of signed advertisements.
pub open spec fn signed_ads(ads: Seq<SignedServiceAd>) -> Seq<SignedAdView> {
    Seq::new(ads.len(), |i: int| ads[i]@)
}

/// The contents of a list of buckets.
pub open spec fn bucket_list(buckets: Seq<ServiceBucket>) -> Seq<BucketView> {
    Seq::new(buckets.len(), |i: int| buckets[i]@)
}

/// What postcard reads as a bucket at the start of the bytes, if it can.
pub uninterp spec fn bucket_read(bytes: Seq<u8>) -> Option<BucketView>;

/// The unsigned service advertisement payload.
#[derive(Debug, PartialEq, Eq)]
pub struct ServiceAd {
    /// The advertising iroh node ID bytes.
    pub node_id: [u8; 32],
    /// Optional coarse tags for filtering.
    pub tags: Vec<String>,
    /// Unix timestamp when published.
    pub published_at: u64,
    /// Unix timestamp after which the ad should be discarded.
    pub expires_at: u64,
}

impl View for ServiceAd {
    type V = AdView;

    open spec fn view(&self) -> AdView {
        AdView {
            node_id: self.node_id@,
            tags: texts(self.tags@),
            published_at: self.published_at,
            expires_at: self.expires_at,
        }
    }
}

impl Clone for ServiceAd {
    fn clone(&self) -> (r: ServiceAd)
        ensures
            r@ == self@,
    {
        ServiceAd {
            node_id: self.node_id,
            tags: copy_texts(self.tags.as_slice()),
            published_at: self.published_at,
            expires_at: self.expires_at,
        }
    }
}

/// A single signed service advertisement stored inside a DHT shard bucket.
#[derive(Debug, PartialEq, Eq)]
pub struct SignedServiceAd {
    ad: ServiceAd,
    signature: [u8; 64],
}

impl View for SignedServiceAd {
    type V = SignedAdView;

    closed spec fn view(&self) -> SignedAdView {
        SignedAdView { ad: self.ad@, signature: self.signature@ }
    }
}

impl Clone for SignedServiceAd {
    fn clone(&self) -> (r: SignedServiceAd)
        ensures
            r@ == self@,
    {
        SignedServiceAd { ad: self.ad.clone(), signature: self.signature }
    }
}

/// A bounded, shared mutable bucket of signed service advertisements.
#[derive(Debug, PartialEq, Eq)]
pub struct ServiceBucket {
    /// Bucket format version for clean cutovers.
    pub version: u8,
    /// Signed ads currently held in this shard.
    pub ads: Vec<SignedServiceAd>,
}

impl View for ServiceBucket {
    type V = BucketView;

    open spec fn view(&self) -> BucketView {
        BucketView { version: self.version, ads: signed_ads(self.ads@) }
    }
}

/// Calls `postcard::to_allocvec` on what a signature covers. Lengths are known and the output
/// grows as needed, so it succeeds, with the fields one behind the other.
#[verifier::external_body]
fn encode_message(version: u8, alpn: &[u8], minute: u64, shard: u8, ad: &ServiceAd) -> (r: Option<
    Vec<u8>,
>)
    ensures
        r is Some,
        r->0@ == seq![version] + (sized_bytes(alpn@) + (varint(minute as nat) + (seq![shard]
            + ad_wire(ad@)))),
{
    let body = (ad.node_id, &ad.tags, ad.published_at, ad.expires_at);
    postcard::to_allocvec(&(version, alpn, minute, shard, body)).ok()
}

/// Calls `postcard::to_allocvec` on the bucket. Lengths are known and the output grows as needed,
/// so it succeeds, with the bucket's encoding.
#[verifier::external_body]
pub(crate) fn encode_bucket(bucket: &ServiceBucket) -> (r: Option<Vec<u8>>)
    ensures
        r is Some,
        r->0@ == bucket_wire(bucket@),
{
    let fields = |s: &SignedServiceAd| (
        (s.ad.node_id, s.ad.tags.clone(), s.ad.published_at, s.ad.expires_at),
        iroh::Signature::from_bytes(&s.signature),
    );
    let ads: Vec<_> = bucket.ads.iter().map(fields).collect();
    postcard::to_allocvec(&(bucket.version, ads)).ok()
}

/// Calls `postcard::from_bytes` for a bucket. The outcome depends on the bytes alone, and the
/// encoding of a bucket is read back as that bucket.
#[verifier::external_body]
pub(crate) fn decode_bucket(bytes: &[u8]) -> (r: Option<ServiceBucket>)
    ensures
        (match r {
            Some(bucket) => Some(bucket@),
            None => None,
        }) == bucket_read(bytes@),
        forall|bucket: BucketView|
            bucket_sized(bucket) && bytes@ == #[trigger] bucket_wire(bucket) ==> (r is Some
                && r->0@ == bucket),
{
    let (version, ads) = postcard::from_bytes::<
        (u8, Vec<(([u8; 32], Vec<String>, u64, u64), iroh::Signature)>),
    >(bytes).ok()?;
    let signed = |((node_id, tags, published_at, expires_at), signature): (_, iroh::Signature)|
        SignedServiceAd {
            ad: ServiceAd { node_id, tags, published_at, expires_at },
            signature: signature.to_bytes(),
        };
    Some(ServiceBucket { version, ads: ads.into_iter().map(signed).collect() })
}

/// The bytes that are signed for the advertisement.
fn signing_message(alpn: &[u8], minute: u64, shard: u8, ad: &ServiceAd) -> (r: Option<Vec<u8>>)
    ensures
        r is Some,
        r->0@ == ad_message(alpn@, minute, shard, ad@),
{
    encode_message(DHT_BUCKET_VERSION, alpn, minute, shard, ad)
}

impl SignedServiceAd {
    /// Create and sign a service advertisement for a specific shard bucket. It is valid there
    /// whenever its times are.
    pub fn sign(
        secret_key: &SecretKey,
        alpn: &[u8],
        minute: u64,
        shard: u8,
        tags: &[String],
        published_at: u64,
        expires_at: u64,
    ) -> (r: Option<SignedServiceAd>)
        ensures
            r is Some,
            r->0@.ad == (AdView {
                node_id: public_key(secret_key@),
                tags: texts(tags@),
                published_at,
                expires_at,
            }),
            r->0@.signature == signature_of(
                secret_key@,
                ad_message(alpn@, minute, shard, r->0@.ad),
            ),
            forall|now: u64|
                #[trigger] ad_valid(r->0@, alpn@, minute, shard, now) == ad_timely(r->0@.ad, now),
    {
        let ad = ServiceAd {
            node_id: *secret_key.public().as_bytes(),
            tags: copy_texts(tags),
            published_at,
            expires_at,
        };
        match signing_message(alpn, minute, shard, &ad) {
            Some(message) => Some(
                SignedServiceAd { signature: secret_key.sign(message.as_slice()), ad },
            ),
            None => None,
        }
    }

    /// The advertised content.
    pub fn ad(&self) -> (r: &ServiceAd)
        ensures
            r@ == self@.ad,
    {
        &self.ad
    }

    /// Return the advertised endpoint id if the bytes decode to a valid iroh id.
    pub fn endpoint_id(&self) -> (r: Option<EndpointId>)
        ensures
            r is Some <==> is_endpoint_key(self@.ad.node_id),
            r matches Some(id) ==> id@ == self@.ad.node_id,
    {
        EndpointId::from_bytes(&self.ad.node_id)
    }

    /// Return the advertised node id bytes.
    pub fn node_id(&self) -> (r: [u8; 32])
        ensures
            r@ == self@.ad.node_id,
    {
        self.ad.node_id
    }

    /// Check whether the ad contains all required tags.
    pub fn has_tags(&self, required_tags: &[String]) -> (r: bool)
        ensures
            r == has_all_texts(self@.ad.tags, texts(required_tags@)),
            r == (forall|tag: Seq<char>| #[trigger]
                texts(required_tags@).contains(tag) ==> self@.ad.tags.contains(tag)),
    {
        holds_all_texts(self.ad.tags.as_slice(), required_tags)
    }

    /// When the ad was published.
    pub fn published_at(&self) -> (r: u64)
        ensures
            r == self@.ad.published_at,
    {
        self.ad.published_at
    }

    /// When the ad expires.
    pub fn expires_at(&self) -> (r: u64)
        ensures
            r == self@.ad.expires_at,
    {
        self.ad.expires_at
    }

    /// Validate the ad against the bucket namespace and current time.
    pub fn verify(&self, alpn: &[u8], minute: u64, shard: u8, now: u64) -> (r: bool)
        ensures
            r == ad_valid(self@, alpn@, minute, shard, now),
    {
        if self.ad.expires_at <= now || self.ad.published_at > self.ad.expires_at
            || self.ad.published_at > now.saturating_add(MAX_FUTURE_SKEW_SECS) {
            return false;
        }
        let endpoint_id = match self.endpoint_id() {
            Some(endpoint_id) => endpoint_id,
            None => {
                return false;
            },
        };
        match signing_message(alpn, minute, shard, &self.ad) {
            Some(message) => endpoint_id.verify(message.as_slice(), &self.signature),
            None => false,
        }
    }
}

/// Whether the candidate takes the place of the existing ad.
fn ad_precedes(candidate: &SignedServiceAd, existing: &SignedServiceAd) -> (r: bool)
    ensures
        r == precedes(candidate@, existing@),
{
    if candidate.published_at() != existing.published_at() {
        return candidate.published_at() > existing.published_at();
    }
    if candidate.expires_at() != existing.expires_at() {
        return candidate.expires_at() > existing.expires_at();
    }
    bytes_before(&candidate.node_id(), &existing.node_id())
}

proof fn lemma_precedes_order()
    ensures
        forall|a: SignedAdView, b: SignedAdView| #[trigger] precedes(a, b) ==> !precedes(b, a),
        forall|a: SignedAdView, b: SignedAdView, c: SignedAdView| #[trigger]
            precedes(a, b) && #[trigger] precedes(b, c) ==> precedes(a, c),
        forall|a: SignedAdView, b: SignedAdView, c: SignedAdView|
            #![trigger precedes(a, c), precedes(a, b)]
            #![trigger precedes(a, c), precedes(b, c)]
            precedes(a, c) ==> precedes(a, b) || precedes(b, c),
{
    assert forall|a: SignedAdView, b: SignedAdView, c: SignedAdView| #[trigger]
        precedes(a, b) && #[trigger] precedes(b, c) implies precedes(a, c) by {
        if lex_less(a.ad.node_id, b.ad.node_id) && lex_less(b.ad.node_id, c.ad.node_id) {
            lemma_lex_transitive(a.ad.node_id, b.ad.node_id, c.ad.node_id);
        }
    }
    assert forall|a: SignedAdView, b: SignedAdView| #[trigger] precedes(a, b) implies !precedes(b, a) by {
        if lex_less(a.ad.node_id, b.ad.node_id) && lex_less(b.ad.node_id, a.ad.node_id) {
            lemma_lex_transitive(a.ad.node_id, b.ad.node_id, a.ad.node_id);
            lemma_lex_irreflexive(a.ad.node_id);
        }
    }
    assert forall|a: SignedAdView, b: SignedAdView, c: SignedAdView|
        #![trigger precedes(a, c), precedes(a, b)]
        #![trigger precedes(a, c), precedes(b, c)]
        precedes(a, c) implies precedes(a, b) || precedes(b, c) by {
        lemma_lex_total(a.ad.node_id, b.ad.node_id);
        lemma_lex_total(b.ad.node_id, c.ad.node_id);
        if lex_less(b.ad.node_id, a.ad.node_id) && lex_less(a.ad.node_id, c.ad.node_id) {
            lemma_lex_transitive(b.ad.node_id, a.ad.node_id, c.ad.node_id);
        }
    }
}

/// Ads of different nodes never tie.
proof fn lemma_precedes_total(a: SignedAdView, b: SignedAdView)
    requires
        a.ad.node_id != b.ad.node_id,
    ensures
        precedes(a, b) || precedes(b, a),
{
    lemma_lex_total(a.ad.node_id, b.ad.node_id);
}

impl ServiceBucket {
    /// Build a new bucket with the current format version.
    pub fn new(ads: Vec<SignedServiceAd>) -> (r: ServiceBucket)
        ensures
            r == (ServiceBucket { version: DHT_BUCKET_VERSION, ads }),
    {
        ServiceBucket { version: DHT_BUCKET_VERSION, ads }
    }

    /// How many bytes the bucket takes.
    pub fn encoded_len(&self) -> (r: Option<usize>)
        ensures
            r is Some,
            r->0 == bucket_wire(self@).len(),
    {
        match encode_bucket(self) {
            Some(bytes) => Some(bytes.len()),
            None => None,
        }
    }
}

/// A signature binds the service, the minute, the shard and the whole advertisement: two
/// advertisements are signed over the same bytes only if all of these agree.
pub proof fn signed_bytes_determine_ad(
    alpn1: Seq<u8>,
    minute1: u64,
    shard1: u8,
    ad1: AdView,
    alpn2: Seq<u8>,
    minute2: u64,
    shard2: u8,
    ad2: AdView,
)
    requires
        ad1.node_id.len() == 32,
        ad2.node_id.len() == 32,
        ad_message(alpn1, minute1, shard1, ad1) == ad_message(alpn2, minute2, shard2, ad2),
    ensures
        alpn1 == alpn2,
        minute1 == minute2,
        shard1 == shard2,
        ad1 == ad2,
{
    let v = seq![DHT_BUCKET_VERSION];
    let d1 = seq![shard1] + ad_wire(ad1);
    let d2 = seq![shard2] + ad_wire(ad2);
    let c1 = varint(minute1 as nat) + d1;
    let c2 = varint(minute2 as nat) + d2;
    lemma_split(v, v, sized_bytes(alpn1) + c1, sized_bytes(alpn2) + c2);
    lemma_sized_prefix(alpn1, alpn2, c1, c2);
    lemma_varint_prefix(minute1 as nat, minute2 as nat, d1, d2);
    lemma_split(seq![shard1], seq![shard2], ad_wire(ad1), ad_wire(ad2));
    assert(seq![shard1][0] == seq![shard2][0]);
    let t1 = varint(ad1.published_at as nat) + varint(ad1.expires_at as nat);
    let t2 = varint(ad2.published_at as nat) + varint(ad2.expires_at as nat);
    lemma_split(ad1.node_id, ad2.node_id, texts_wire(ad1.tags) + t1, texts_wire(ad2.tags) + t2);
    lemma_texts_prefix(ad1.tags, ad2.tags, t1, t2);
    lemma_varint_prefix(
        ad1.published_at as nat,
        ad2.published_at as nat,
        varint(ad1.expires_at as nat),
        varint(ad2.expires_at as nat),
    );
    let e1 = varint(ad1.expires_at as nat);
    let e2 = varint(ad2.expires_at as nat);
    assert(e1 + Seq::<u8>::empty() =~= e1);
    assert(e2 + Seq::<u8>::empty() =~= e2);
    lemma_varint_prefix(
        ad1.expires_at as nat,
        ad2.expires_at as nat,
        Seq::<u8>::empty(),
        Seq::<u8>::empty(),
    );
}

/// The node ids and signatures of every bucket have their sizes.
pub proof fn lemma_bucket_sized(bucket: ServiceBucket)
    ensures
        bucket_sized(bucket@),
{
}

/// An ad counts in a bucket exactly while it lasts, if its times make sense, it names an endpoint,
/// and that endpoint signed this very ad for this service, minute and shard.
pub proof fn valid_ad_is_signed_and_current(
    signed: SignedAdView,
    alpn: Seq<u8>,
    minute: u64,
    shard: u8,
    now: u64,
)
    ensures
        ad_valid(signed, alpn, minute, shard, now) <==> {
            &&& now < signed.ad.expires_at
            &&& signed.ad.published_at <= signed.ad.expires_at
            &&& signed.ad.published_at <= now + 300
            &&& is_endpoint_key(signed.ad.node_id)
            &&& signature_verifies(
                signed.ad.node_id,
                ad_message(alpn, minute, shard, signed.ad),
                signed.signature,
            )
        },
{
}

/// An ad that was valid at two times was valid at every time in between.
pub proof fn validity_has_no_gaps(
    signed: SignedAdView,
    alpn: Seq<u8>,
    minute: u64,
    shard: u8,
    first: u64,
    between: u64,
    last: u64,
)
    requires
        first <= between <= last,
        ad_valid(signed, alpn, minute, shard, first),
        ad_valid(signed, alpn, minute, shard, last),
    ensures
        ad_valid(signed, alpn, minute, shard, between),
{
}

/// Of two ads the one published later comes first, of those published together the one that lasts
/// longer, and of those that also last as long the one of the smaller node id. No ad comes before
/// itself, and ads of different nodes never tie.
pub proof fn newer_ad_comes_first(a: SignedAdView, b: SignedAdView)
    ensures
        a.ad.published_at > b.ad.published_at ==> precedes(a, b) && !precedes(b, a),
        a.ad.published_at == b.ad.published_at && a.ad.expires_at > b.ad.expires_at ==> precedes(a, b)
            && !precedes(b, a),
        a.ad.published_at == b.ad.published_at && a.ad.expires_at == b.ad.expires_at ==> (precedes(
            a,
            b,
        ) <==> lex_less(a.ad.node_id, b.ad.node_id)),
        precedes(a, b) ==> a.ad.published_at >= b.ad.published_at && !precedes(b, a),
        !precedes(a, a),
        a.ad.node_id != b.ad.node_id ==> precedes(a, b) || precedes(b, a),
{
    lemma_precedes_order();
    lemma_lex_irreflexive(a.ad.node_id);
    if a.ad.node_id != b.ad.node_id {
        lemma_precedes_total(a, b);
    }
}

} // verus!
