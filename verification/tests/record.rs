use tonic_iroh_transport::keys::SecretKey;
use tonic_iroh_transport::swarm::dht::resolver::decode_buckets;
use tonic_iroh_transport::swarm::record::{
    ServiceBucket, SignedServiceAd, DHT_BUCKET_VERSION, DHT_MAX_BUCKET_BYTES,
};

fn key(byte: u8) -> SecretKey {
    SecretKey::from_bytes(&[byte; 32])
}

#[test]
fn signed_ad_round_trips() {
    let key = key(7);
    let ad = SignedServiceAd::sign(
        &key,
        b"/svc.Test/1.0",
        123,
        4,
        &["prod".to_string()],
        1_000,
        1_120,
    )
    .expect("ad should serialize");

    assert!(ad.verify(b"/svc.Test/1.0", 123, 4, 1_060));
    assert!(!ad.verify(b"/svc.Test/1.0", 123, 5, 1_060));
    assert!(!ad.verify(b"/svc.Other/1.0", 123, 4, 1_060));
}

#[test]
fn merge_valid_dedupes_and_prefers_newer_ads() {
    let key1 = key(9);
    let newer = SignedServiceAd::sign(&key1, b"/svc.Test/1.0", 55, 2, &[], 200, 320)
        .expect("newer ad should serialize");
    let older = SignedServiceAd::sign(
        &key1,
        b"/svc.Test/1.0",
        55,
        2,
        &["old".to_string()],
        100,
        220,
    )
    .expect("older ad should serialize");
    let invalid = SignedServiceAd::sign(&key(3), b"/svc.Test/1.0", 55, 3, &[], 100, 220)
        .expect("invalid ad should serialize");

    let merged = ServiceBucket::merge_valid(
        &[
            ServiceBucket::new(vec![older]),
            ServiceBucket::new(vec![newer.clone(), invalid]),
        ],
        b"/svc.Test/1.0",
        55,
        2,
        210,
    );

    assert_eq!(merged, vec![newer]);
}

#[test]
fn trim_to_size_preserves_preferred_ad() {
    let preferred = key(1);
    let other = key(2);
    let mut ads: Vec<SignedServiceAd> = (0..24u64)
        .map(|idx| {
            let key = if idx == 0 { preferred } else { key(idx as u8) };
            SignedServiceAd::sign(
                &key,
                b"/svc.Test/1.0",
                77,
                3,
                &[],
                1_000 + idx,
                1_120 + idx,
            )
            .expect("ad should serialize")
        })
        .collect();
    ads.push(
        SignedServiceAd::sign(&other, b"/svc.Test/1.0", 77, 3, &[], 900, 1_020)
            .expect("ad should serialize"),
    );
    let mut bucket = ServiceBucket::new(ads);

    let preferred_id = *preferred.public().as_bytes();
    let kept = bucket
        .trim_to_size(Some(preferred_id))
        .expect("bucket trim should serialize");

    assert!(kept);
    assert!(bucket.ads.iter().any(|ad| ad.node_id() == preferred_id));
    let encoded = bucket.encoded_len().expect("bucket should serialize");
    assert!(encoded <= DHT_MAX_BUCKET_BYTES);
    // Each ad takes 32 + 1 + 2 + 2 + 64 bytes, the bucket two more.
    assert_eq!(bucket.ads.len(), 9);
    assert_eq!(encoded, 2 + 9 * 101);
}

fn signed(byte: u8, published_at: u64, expires_at: u64) -> SignedServiceAd {
    SignedServiceAd::sign(&key(byte), b"/svc/1.0", 1, 2, &[], published_at, expires_at)
        .expect("ad should serialize")
}

#[test]
fn validity_has_its_edges() {
    let ad = signed(1, 1_000, 1_120);
    let valid = |now: u64| ad.verify(b"/svc/1.0", 1, 2, now);
    assert!(valid(1_000));
    assert!(valid(1_119));
    assert!(!valid(1_120));
    assert!(valid(700));
    assert!(!valid(699));
    assert!(!ad.verify(b"/svc/1.0", 2, 2, 1_000));

    let backwards = signed(1, 1_000, 999);
    assert!(!backwards.verify(b"/svc/1.0", 1, 2, 900));
    let forever = signed(1, u64::MAX, u64::MAX);
    assert!(forever.verify(b"/svc/1.0", 1, 2, u64::MAX - 1));
    assert!(!forever.verify(b"/svc/1.0", 1, 2, u64::MAX));
    assert!(!forever.verify(b"/svc/1.0", 1, 2, u64::MAX - 301));
}

#[test]
fn a_signature_is_that_of_the_node() {
    let ad = signed(1, 1_000, 1_120);
    assert_eq!(ad.endpoint_id(), Some(key(1).public()));
    assert_eq!(ad.node_id(), *key(1).public().as_bytes());
    assert_ne!(ad.node_id(), [1u8; 32]);
    assert_eq!(ad.ad().published_at, 1_000);
    assert_eq!(ad.ad().clone().tags, Vec::<String>::new());
    let iroh_key = iroh::SecretKey::from_bytes(&[1u8; 32]);
    assert_eq!(ad.node_id(), *iroh_key.public().as_bytes());
    let signature = key(1).sign(b"hello");
    assert_eq!(signature, iroh_key.sign(b"hello").to_bytes());
    assert!(key(1).public().verify(b"hello", &signature));
    assert!(!key(1).public().verify(b"hallo", &signature));
    assert!(!key(2).public().verify(b"hello", &signature));
}

#[test]
fn merging_orders_by_times_and_node() {
    let mut tied = [signed(1, 50, 100), signed(2, 50, 100)];
    tied.sort_by_key(|ad| ad.node_id());
    let [first_tied, second_tied] = tied;
    let longer = signed(3, 50, 110);
    let newest = signed(4, 60, 90);
    let merged = ServiceBucket::merge_valid(
        &[
            ServiceBucket::new(vec![second_tied.clone(), first_tied.clone()]),
            ServiceBucket::new(vec![longer.clone(), newest.clone()]),
        ],
        b"/svc/1.0",
        1,
        2,
        60,
    );
    assert_eq!(merged, vec![newest, longer, first_tied, second_tied]);
}

#[test]
fn of_tied_ads_the_first_is_kept() {
    let plain = signed(1, 50, 100);
    let tagged = SignedServiceAd::sign(
        &key(1),
        b"/svc/1.0",
        1,
        2,
        &["t".to_string()],
        50,
        100,
    )
    .expect("ad should serialize");
    let merge = |ads: Vec<SignedServiceAd>| {
        ServiceBucket::merge_valid(&[ServiceBucket::new(ads)], b"/svc/1.0", 1, 2, 60)
    };
    assert_eq!(merge(vec![plain.clone(), tagged.clone()]), vec![plain.clone()]);
    assert_eq!(merge(vec![tagged.clone(), plain.clone()]), vec![tagged.clone()]);

    let mut bucket = ServiceBucket::new(vec![plain.clone()]);
    bucket.upsert(tagged);
    assert_eq!(bucket.ads, vec![plain]);
}

#[test]
fn merging_ignores_other_versions_and_is_idempotent() {
    let ad = signed(1, 50, 100);
    let mut old = ServiceBucket::new(vec![ad.clone()]);
    old.version = DHT_BUCKET_VERSION - 1;
    assert!(ServiceBucket::merge_valid(&[old], b"/svc/1.0", 1, 2, 60).is_empty());
    assert!(ServiceBucket::merge_valid(&[], b"/svc/1.0", 1, 2, 60).is_empty());

    let once = ServiceBucket::merge_valid(
        &[ServiceBucket::new(vec![signed(2, 40, 90), ad])],
        b"/svc/1.0",
        1,
        2,
        60,
    );
    let twice = ServiceBucket::merge_valid(
        &[ServiceBucket::new(once.clone())],
        b"/svc/1.0",
        1,
        2,
        60,
    );
    assert_eq!(once, twice);
    assert_eq!(once.len(), 2);
}

#[test]
fn upsert_replaces_older_and_appends_new() {
    let mut bucket = ServiceBucket::new(vec![signed(1, 50, 100), signed(2, 50, 100)]);
    bucket.upsert(signed(1, 40, 200));
    assert_eq!(bucket.ads, vec![signed(1, 50, 100), signed(2, 50, 100)]);
    bucket.upsert(signed(1, 51, 60));
    assert_eq!(bucket.ads, vec![signed(1, 51, 60), signed(2, 50, 100)]);
    bucket.upsert(signed(3, 1, 2));
    assert_eq!(
        bucket.ads,
        vec![signed(1, 51, 60), signed(2, 50, 100), signed(3, 1, 2)]
    );
}

#[test]
fn trimming_without_preference_keeps_the_newest() {
    let mut bucket =
        ServiceBucket::new((1..=12u8).map(|b| signed(b, b as u64, 100)).collect());
    assert_eq!(bucket.trim_to_size(None), Some(true));
    // Each ad takes 32 + 1 + 1 + 1 + 64 bytes.
    assert_eq!(bucket.ads.len(), 10);
    let times: Vec<u64> = bucket.ads.iter().map(|ad| ad.published_at()).collect();
    assert_eq!(times, vec![12, 11, 10, 9, 8, 7, 6, 5, 4, 3]);
}

#[test]
fn trimming_fails_where_the_preferred_ad_is_too_large() {
    let large = SignedServiceAd::sign(
        &key(1),
        b"/svc/1.0",
        1,
        2,
        &["x".repeat(900)],
        5,
        100,
    )
    .expect("ad should serialize");
    let mut bucket = ServiceBucket::new(vec![signed(2, 50, 100), large.clone()]);
    let node = Some(large.node_id());
    assert_eq!(bucket.trim_to_size(node), Some(false));
    assert_eq!(bucket.ads, vec![large.clone()]);
    assert_eq!(bucket.trim_to_size(None), Some(true));
    assert!(bucket.ads.is_empty());
}

#[test]
fn signatures_cover_the_postcard_envelope() {
    let ad = SignedServiceAd::sign(
        &key(7),
        b"/s",
        300,
        4,
        &["ab".to_string(), String::new()],
        5,
        1_120,
    )
    .expect("ad should serialize");
    let mut message = vec![2, 2, b'/', b's', 0xac, 0x02, 4];
    message.extend_from_slice(key(7).public().as_bytes());
    message.extend_from_slice(&[2, 2, b'a', b'b', 0, 5, 0xe0, 0x08]);
    let signature = key(7).sign(&message);
    assert!(key(7).public().verify(&message, &signature));

    let mut bytes = vec![2, 1];
    bytes.extend_from_slice(key(7).public().as_bytes());
    bytes.extend_from_slice(&[2, 2, b'a', b'b', 0, 5, 0xe0, 0x08]);
    bytes.extend_from_slice(&signature);
    let buckets = decode_buckets(&[bytes]);
    assert_eq!(buckets, vec![ServiceBucket::new(vec![ad])]);
}
