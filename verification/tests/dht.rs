use sha2::{Digest, Sha256};
use std::collections::BTreeSet;
use std::sync::Arc;
use std::time::Duration;
use tonic_iroh_transport::error::Error;
use tonic_iroh_transport::keys::SecretKey;
use tonic_iroh_transport::schedule::PublishAction;
use tonic_iroh_transport::swarm::dht::backend::DhtBackend;
use tonic_iroh_transport::swarm::dht::publisher::{
    read_shard_state, timestamp_of, unix_timestamp_secs, DhtPublisher, DhtPublisherConfig, PutOutcome,
    ShardItem, ShardPublication,
};
use tonic_iroh_transport::swarm::dht::resolver::{
    decode_buckets, resolve_shard, shard_target, DhtResolver,
};
use tonic_iroh_transport::swarm::dht::{
    apply_minute_offset, derive_salt, derive_signing_key, minute_of_reading, replica_shards,
    replica_shards_with_limits, unix_minute, DHT_REPLICA_COUNT, DHT_SHARD_COUNT,
};

#[test]
fn signing_key_derivation_is_deterministic() {
    let alpn = b"/test.Service/1.0";
    let minute = 12345u64;

    let key1 = derive_signing_key(alpn, minute, 3);
    let key2 = derive_signing_key(alpn, minute, 3);
    assert_eq!(key1.to_bytes(), key2.to_bytes());
}

#[test]
fn signing_key_changes_with_minute() {
    let alpn = b"/test.Service/1.0";
    let key1 = derive_signing_key(alpn, 12345, 3);
    let key2 = derive_signing_key(alpn, 12346, 3);
    assert_ne!(key1.to_bytes(), key2.to_bytes());
}

#[test]
fn signing_key_changes_with_service() {
    let minute = 12345u64;
    let key1 = derive_signing_key(b"/service.A/1.0", minute, 3);
    let key2 = derive_signing_key(b"/service.B/1.0", minute, 3);
    assert_ne!(key1.to_bytes(), key2.to_bytes());
}

#[test]
fn salt_derivation_is_deterministic() {
    let alpn = b"/test.Service/1.0";
    let minute = 12345u64;

    let salt1 = derive_salt(alpn, minute, 3);
    let salt2 = derive_salt(alpn, minute, 3);
    assert_eq!(salt1, salt2);
    assert_eq!(salt1.len(), 32);
}

#[test]
fn shard_selection_is_stable_and_distinct() {
    let node_id = [42u8; 32];
    let shards = replica_shards(&node_id, b"/test.Service/1.0");

    assert_eq!(shards.len(), DHT_REPLICA_COUNT);
    assert_eq!(shards, replica_shards(&node_id, b"/test.Service/1.0"));
    assert_ne!(shards[0], shards[1]);
    assert!(shards.iter().all(|shard| *shard < DHT_SHARD_COUNT));
}

#[test]
fn shard_selection_caps_replica_count_to_available_shards() {
    let node_id = [7u8; 32];
    let shards = replica_shards_with_limits(&node_id, b"/test.Service/1.0", 3, 8);

    assert_eq!(shards.len(), 3);
    assert_eq!(
        shards,
        replica_shards_with_limits(&node_id, b"/test.Service/1.0", 3, 8)
    );
    assert_eq!(
        shards.iter().copied().collect::<BTreeSet<_>>().len(),
        3
    );
    assert!(shards.iter().all(|shard| *shard < 3));
}

#[test]
fn unix_minute_applies_offset() {
    let current = unix_minute(0).expect("clock after the epoch");
    let previous = unix_minute(-1).expect("clock after the epoch");
    let next = unix_minute(1).expect("clock after the epoch");
    assert_eq!(previous + 1, current);
    assert_eq!(current + 1, next);
}

#[test]
fn negative_minute_offset_saturates_at_zero() {
    assert_eq!(apply_minute_offset(0, -1), 0);
    assert_eq!(apply_minute_offset(0, i64::MIN), 0);
    assert_eq!(apply_minute_offset(3, -10), 0);
}

#[test]
fn minute_offsets_saturate_at_both_ends() {
    assert_eq!(apply_minute_offset(10, 5), 15);
    assert_eq!(apply_minute_offset(10, -5), 5);
    assert_eq!(apply_minute_offset(u64::MAX, 1), u64::MAX);
    assert_eq!(apply_minute_offset(u64::MAX, i64::MIN), u64::MAX - (1 << 63));
}

#[test]
fn readings_of_the_clock_give_minutes() {
    assert_eq!(minute_of_reading(Ok(7_259), 0), Some(120));
    assert_eq!(minute_of_reading(Ok(7_260), -1), Some(120));
    assert_eq!(minute_of_reading(Ok(59), -1), Some(0));
    assert_eq!(minute_of_reading(Err("before".to_string()), 0), None);
}

#[test]
fn keys_and_salts_hash_what_they_say() {
    let mut hasher = Sha256::new();
    hasher.update(b"tonic-iroh-transport:dht:key:v2:");
    hasher.update(b"/svc/1.0");
    hasher.update(0x0102030405060708u64.to_le_bytes());
    hasher.update([9u8]);
    let expected: [u8; 32] = hasher.finalize().into();
    let key = derive_signing_key(b"/svc/1.0", 0x0102030405060708, 9);
    assert_eq!(key.to_bytes(), expected);
    let public = *mainline::SigningKey::from_bytes(&expected)
        .verifying_key()
        .as_bytes();
    assert_eq!(key.verifying_key(), public);
    assert_ne!(key.verifying_key(), key.to_bytes());

    let mut hasher = Sha256::new();
    hasher.update(b"tonic-iroh-transport:dht:salt:v2:");
    hasher.update(b"/svc/1.0");
    hasher.update(0x0102030405060708u64.to_le_bytes());
    hasher.update([9u8]);
    let expected: [u8; 32] = hasher.finalize().into();
    assert_eq!(derive_salt(b"/svc/1.0", 0x0102030405060708, 9), expected);
    assert_ne!(expected, key.to_bytes());

    let target = shard_target(b"/svc/1.0", 0x0102030405060708, 9);
    assert_eq!(target.public_key, public);
    assert_eq!(target.salt, expected);
}

#[test]
fn replica_shards_are_ranked_by_hash() {
    let node_id = [42u8; 32];
    let mut ranked: Vec<([u8; 32], u8)> = (0..16u8)
        .map(|shard| {
            let mut hasher = Sha256::new();
            hasher.update(b"tonic-iroh-transport:dht:shards:v3:");
            hasher.update(node_id);
            hasher.update(b"/test.Service/1.0");
            hasher.update([shard]);
            (hasher.finalize().into(), shard)
        })
        .collect();
    ranked.sort();
    let expected: Vec<u8> = ranked.iter().map(|(_, shard)| *shard).collect();
    assert_eq!(
        replica_shards_with_limits(&node_id, b"/test.Service/1.0", 16, 16),
        expected
    );
    assert_eq!(
        replica_shards(&node_id, b"/test.Service/1.0"),
        expected[..2].to_vec()
    );
    assert!(replica_shards_with_limits(&node_id, b"x", 16, 0).is_empty());
    assert!(replica_shards_with_limits(&node_id, b"x", 0, 2).is_empty());
}

fn publisher() -> DhtPublisher<()> {
    DhtPublisher::new(
        (),
        SecretKey::from_bytes(&[5u8; 32]),
        DhtPublisherConfig {
            tags: vec!["prod".to_string()],
            publish_interval: Duration::from_secs(30),
        },
    )
}

#[test]
fn publisher_plans_every_service_into_its_shards() {
    let config = DhtPublisherConfig::default();
    assert!(config.tags.is_empty());
    assert_eq!(config.publish_interval, Duration::from_secs(30));

    let mut publisher = publisher();
    assert!(publisher.jobs().is_empty());
    publisher.add_service(b"/a/1.0".to_vec());
    publisher.add_service(b"/b/1.0".to_vec());
    let node_id = *SecretKey::from_bytes(&[5u8; 32]).public().as_bytes();
    let jobs: Vec<(Vec<u8>, u8)> = publisher
        .jobs()
        .into_iter()
        .map(|job| (job.alpn, job.shard))
        .collect();
    let mut expected = Vec::new();
    for alpn in [b"/a/1.0".to_vec(), b"/b/1.0".to_vec()] {
        for shard in replica_shards(&node_id, &alpn) {
            expected.push((alpn.clone(), shard));
        }
    }
    assert_eq!(jobs, expected);
    assert_eq!(jobs.len(), 4);
}

fn begin(byte: u8, published_at: u64) -> ShardPublication {
    ShardPublication::begin(
        &SecretKey::from_bytes(&[byte; 32]),
        b"/svc.Test/1.0",
        4,
        &["prod".to_string()],
        published_at,
    )
    .expect("signing does not fail")
}

#[test]
fn what_is_published_is_resolved() {
    let publication = begin(5, 6_000);
    let first = publication.prepare(&[]).expect("fits");
    assert_eq!(first.seq, 1);
    assert_eq!(first.expected, None);
    let signing_key = derive_signing_key(b"/svc.Test/1.0", 100, 4);
    assert_eq!(first.public_key, signing_key.verifying_key());
    let item = mainline::MutableItem::new(
        mainline::SigningKey::from_bytes(&signing_key.to_bytes()),
        &first.value,
        1,
        Some(&first.salt),
    );
    assert_eq!(first.signature, *item.signature());
    assert_eq!(first.salt, derive_salt(b"/svc.Test/1.0", 100, 4));

    let second = begin(6, 6_010)
        .prepare(&[
            ShardItem {
                seq: 3,
                value: first.value.clone(),
            },
            ShardItem {
                seq: 7,
                value: vec![1, 2, 3],
            },
        ])
        .expect("fits");
    assert_eq!(second.expected, Some(7));
    assert_eq!(second.seq, 8);

    let ads = resolve_shard(
        Ok(vec![second.value.clone(), vec![0xff]]),
        b"/svc.Test/1.0",
        100,
        4,
        6_050,
    )
    .expect("query succeeded");
    let nodes: Vec<[u8; 32]> = ads.iter().map(|ad| ad.node_id()).collect();
    assert_eq!(
        nodes,
        vec![
            *SecretKey::from_bytes(&[6u8; 32]).public().as_bytes(),
            *SecretKey::from_bytes(&[5u8; 32]).public().as_bytes(),
        ]
    );
    assert_eq!(ads[0].published_at(), 6_010);
    assert_eq!(ads[0].expires_at(), 6_130);
    assert!(ads[0].has_tags(&["prod".to_string()]));

    // In another shard, another minute, or once the ads have expired, nothing is found.
    for (minute, shard, now) in [(100, 5, 6_050), (101, 4, 6_050), (100, 4, 6_130)] {
        let ads = resolve_shard(
            Ok(vec![second.value.clone()]),
            b"/svc.Test/1.0",
            minute,
            shard,
            now,
        )
        .expect("query succeeded");
        assert!(ads.is_empty());
    }
}

#[test]
fn stored_values_that_do_not_decode_are_passed_over() {
    let value = begin(5, 6_000).prepare(&[]).expect("fits").value;
    assert_eq!(decode_buckets(&[vec![], value.clone(), vec![9]]).len(), 1);
    let items = [
        ShardItem { seq: -4, value },
        ShardItem {
            seq: -9,
            value: vec![],
        },
    ];
    let (ads, latest) = read_shard_state(&items, b"/svc.Test/1.0", 100, 4, 6_000);
    assert_eq!(ads.len(), 1);
    assert_eq!(latest, Some(-4));
    let (ads, latest) = read_shard_state(&[], b"/svc.Test/1.0", 100, 4, 6_000);
    assert!(ads.is_empty());
    assert_eq!(latest, None);
}

#[test]
fn an_ad_that_is_too_large_is_not_published() {
    let publication = ShardPublication::begin(
        &SecretKey::from_bytes(&[5u8; 32]),
        b"/svc.Test/1.0",
        4,
        &["x".repeat(1000)],
        6_000,
    )
    .expect("signing does not fail");
    match publication.prepare(&[]) {
        Err(text) => assert_eq!(text, "local service advertisement exceeds shard bucket size"),
        Ok(_) => panic!("expected an error"),
    }
}

#[test]
fn publication_is_tried_a_few_times() {
    let mut publication = begin(5, 6_000);
    for _ in 0..3 {
        assert_eq!(publication.on_put(PutOutcome::Contended), None);
    }
    assert_eq!(
        publication.on_put(PutOutcome::Contended),
        Some(Err("DHT shard remained contended after retries".to_string()))
    );
    assert_eq!(
        begin(5, 6_000).on_put(PutOutcome::Stored),
        Some(Ok(()))
    );
    assert_eq!(
        begin(5, 6_000).on_put(PutOutcome::QueryFailed("no nodes".to_string())),
        Some(Err("put mutable shard: no nodes".to_string()))
    );
    assert_eq!(
        begin(5, 6_000).on_put(PutOutcome::TaskFailed("gone".to_string())),
        Some(Err("publish task panicked: gone".to_string()))
    );
}

#[test]
fn publication_starts_by_the_clock() {
    let publisher = publisher();
    let publication = publisher.start(b"/svc.Test/1.0", 4).expect("clock works");
    let target = publication.target();
    assert_eq!(target.salt.len(), 32);
    assert!(unix_timestamp_secs().expect("clock works") > 1_600_000_000);
    assert_eq!(timestamp_of(Ok(5)), Ok(5));
    assert_eq!(
        timestamp_of(Err("second time provided was later than self".to_string())),
        Err(
            "system clock before unix epoch: second time provided was later than self"
                .to_string()
        )
    );
}

#[test]
fn failed_queries_are_reported() {
    match resolve_shard(Err("boom".to_string()), b"/svc/1.0", 120, 15, 0) {
        Err(Error::DhtDiscovery(text)) => assert_eq!(
            text,
            "DHT shard query task failed for alpn=/svc/1.0 minute=120 shard=15: boom"
        ),
        _ => panic!("expected an error"),
    }
    let resolver = DhtResolver::new(17u8);
    assert_eq!(*resolver.dht(), 17);
    assert!(resolver
        .query_shard(Err("boom".to_string()), b"/svc/1.0", 0, 0)
        .is_err());
    assert!(resolver
        .query_shard(Ok(vec![vec![1, 2]]), b"/svc/1.0", 0, 0)
        .expect("query succeeded")
        .is_empty());
}

#[test]
fn backend_has_its_defaults() {
    let backend = DhtBackend::with_dht(Arc::new(3u32));
    assert_eq!(backend.priority, 100);
    assert_eq!(backend.trust, 50);
    assert_eq!(backend.poll_interval, Duration::from_secs(60));
    assert!(backend.required_tags.is_empty());
    assert_eq!(backend.name(), "dht");
    let backend = backend
        .priority(1)
        .trust(2)
        .poll_interval(Duration::from_secs(3))
        .required_tags(vec!["a".to_string()]);
    assert_eq!(**backend.dht(), 3);
    assert_eq!((backend.priority, backend.trust), (1, 2));
    assert_eq!(backend.poll_interval, Duration::from_secs(3));
    let publisher =
        backend.create_publisher(SecretKey::from_bytes(&[1; 32]), DhtPublisherConfig::default());
    assert!(publisher.jobs().is_empty());
}

#[test]
fn publishers_publish_at_the_start_and_at_ticks() {
    let mut schedule = publisher().schedule();
    assert_eq!(schedule.action(), PublishAction::Publish);
    schedule.on_published();
    assert_eq!(schedule.action(), PublishAction::SkipTick);
    schedule.on_tick();
    assert_eq!(schedule.action(), PublishAction::AwaitEvent);
    schedule.on_tick();
    assert_eq!(schedule.action(), PublishAction::Publish);
    schedule.on_published();
    assert_eq!(schedule.action(), PublishAction::AwaitEvent);
    schedule.on_shutdown();
    assert_eq!(schedule.action(), PublishAction::Stop);
}
