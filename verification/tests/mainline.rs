use std::time::Duration;
use tonic_iroh_transport::keys::{EndpointId, SecretKey};
use tonic_iroh_transport::mainline_discovery::discovery::{
    query_offsets, DiscoveryOptions, ServiceSearch,
};
use tonic_iroh_transport::mainline_discovery::publisher::{
    MainlinePublisher, MainlinePublisherConfig,
};
use tonic_iroh_transport::mainline_discovery::record::{time_or_zero, ServiceRecord};
use tonic_iroh_transport::schedule::PublishAction;
use tonic_iroh_transport::mainline_discovery::topic::{
    secret_from_alpn, secret_from_service, topic_from_alpn, topic_from_service,
};

#[test]
fn test_discovery_options_default() {
    let opts = DiscoveryOptions::default();
    assert_eq!(opts.timeout, Duration::from_secs(10));
    assert!(opts.required_tags.is_empty());
    assert!(opts.query_previous_minute);
}

#[test]
fn test_topic_derivation() {
    let topic = topic_from_service("test.Service");
    let topic2 = topic_from_service("test.Service");
    assert_eq!(topic, topic2);
    assert_eq!(topic, "/test.Service/1.0");
}

#[test]
fn test_secret_derivation() {
    let secret = secret_from_service("test.Service");
    assert_eq!(secret.len(), 32);

    let secret2 = secret_from_service("test.Service");
    assert_eq!(secret, secret2);
}

#[test]
fn test_alpn_derivation() {
    let alpn = b"/test.Service/1.0";
    let topic = topic_from_alpn(alpn);
    let secret = secret_from_alpn(alpn);

    let topic2 = topic_from_service("test.Service");
    let secret2 = secret_from_service("test.Service");

    assert_eq!(topic, topic2);
    assert_eq!(secret, secret2);
}

#[test]
fn topic_of_invalid_utf8_has_replacement_characters() {
    assert_eq!(topic_from_alpn(&[b'a', 0xff, b'b']), "a\u{fffd}b");
}

#[test]
fn secret_is_the_sha256_of_the_alpn() {
    // SHA-256 of "abc".
    let expected = [
        0xba, 0x78, 0x16, 0xbf, 0x8f, 0x01, 0xcf, 0xea, 0x41, 0x41, 0x40, 0xde, 0x5d, 0xae, 0x22,
        0x23, 0xb0, 0x03, 0x61, 0xa3, 0x96, 0x17, 0x7a, 0x9c, 0xb4, 0x10, 0xff, 0x61, 0xf2, 0x00,
        0x15, 0xad,
    ];
    assert_eq!(secret_from_alpn(b"abc"), expected);
}

#[test]
fn test_service_record_roundtrip() {
    let node_id_bytes = [42u8; 32];
    let endpoint_id = EndpointId::from_bytes(&node_id_bytes).unwrap();

    let record = ServiceRecord::new(endpoint_id, vec!["region:us-east".into()]);

    assert_eq!(record.node_id, node_id_bytes);
    assert_eq!(record.tags, vec!["region:us-east".to_string()]);
}

#[test]
fn test_has_tags() {
    let node_id_bytes = [42u8; 32];
    let endpoint_id = EndpointId::from_bytes(&node_id_bytes).unwrap();

    let record = ServiceRecord::new(
        endpoint_id,
        vec!["region:us-east".into(), "tier:premium".into()],
    );

    assert!(record.has_tags(&["region:us-east".into()]));
    assert!(record.has_tags(&["region:us-east".into(), "tier:premium".into()]));
    assert!(!record.has_tags(&["region:eu-west".into()]));
}

#[test]
fn records_are_stamped_with_the_clock() {
    let id = SecretKey::from_bytes(&[1u8; 32]).public();
    let record = ServiceRecord::new(id, Vec::new());
    assert!(record.published_at > 1_600_000_000);
    assert_eq!(time_or_zero(Ok(7)), 7);
    assert_eq!(time_or_zero(Err("before".to_string())), 0);
    assert_eq!(record.endpoint_id(), id);
    assert_eq!(record.checked_endpoint_id(), Some(id));
}

fn record_of(byte: u8, tags: &[&str]) -> ServiceRecord {
    ServiceRecord {
        node_id: *SecretKey::from_bytes(&[byte; 32]).public().as_bytes(),
        tags: tags.iter().map(|t| t.to_string()).collect(),
        published_at: 5,
    }
}

#[test]
fn discovery_skips_self_duplicates_and_missing_tags() {
    let me = SecretKey::from_bytes(&[1u8; 32]).public();
    let options = DiscoveryOptions {
        timeout: Duration::from_secs(1),
        required_tags: vec!["a".to_string()],
        query_previous_minute: false,
    };
    assert_eq!(query_offsets(&options), vec![0]);
    assert_eq!(query_offsets(&DiscoveryOptions::default()), vec![0, -1]);

    let mut discovery = ServiceSearch::new(me, &options);
    let own = record_of(1, &["a"]);
    let good = record_of(2, &["b", "a"]);
    let untagged = record_of(3, &["b"]);
    let tagged_later = record_of(3, &["a"]);

    assert_eq!(discovery.process_record(None), None);
    assert_eq!(discovery.process_record(Some(&own)), None);
    assert_eq!(
        discovery.process_record(Some(&good)),
        Some(good.endpoint_id())
    );
    assert_eq!(discovery.process_record(Some(&good)), None);
    assert_eq!(discovery.process_record(Some(&untagged)), None);
    // The node was seen, so that a later record of it is a duplicate.
    assert_eq!(discovery.process_record(Some(&tagged_later)), None);
}

#[test]
fn discovery_refuses_records_without_an_endpoint_id() {
    let me = SecretKey::from_bytes(&[1u8; 32]).public();
    let mut discovery = ServiceSearch::new(me, &DiscoveryOptions::default());
    let mut bad = record_of(2, &[]);
    let mut found = false;
    for b in 0..=255u8 {
        bad.node_id = [b; 32];
        if EndpointId::from_bytes(&bad.node_id).is_none() {
            found = true;
            break;
        }
    }
    assert!(found);
    assert_eq!(bad.checked_endpoint_id(), None);
    assert_eq!(discovery.process_unchecked(Some(&bad)), None);
    let good = record_of(2, &[]);
    assert_eq!(
        discovery.process_unchecked(Some(&good)),
        Some(Some(good.endpoint_id()))
    );
    assert_eq!(discovery.process_unchecked(None), Some(None));
}

#[test]
fn mainline_publisher_keeps_services_once_and_starts_once() {
    let key = SecretKey::from_bytes(&[9u8; 32]);
    let config = MainlinePublisherConfig::default();
    assert_eq!(config.publish_interval, Duration::from_secs(30));
    assert!(config.tags.is_empty());
    let mut publisher = MainlinePublisher::new(
        &key,
        MainlinePublisherConfig {
            tags: vec!["region:us-east".to_string()],
            publish_interval: Duration::from_secs(7),
        },
    );
    publisher.add_service(b"/a/1.0".to_vec());
    publisher.add_service(b"/b/1.0".to_vec());
    publisher.add_service(b"/a/1.0".to_vec());
    assert_eq!(publisher.config().clone().tags, vec!["region:us-east"]);

    let record = publisher.record_at(Ok(77));
    assert_eq!(record.published_at, 77);
    assert_eq!(record.tags, vec!["region:us-east".to_string()]);
    assert_eq!(record.node_id, *key.public().as_bytes());
    assert_eq!(publisher.record_at(Err("x".to_string())).published_at, 0);

    assert_eq!(
        publisher.start(),
        Some(vec![b"/a/1.0".to_vec(), b"/b/1.0".to_vec()])
    );
    assert_eq!(publisher.start(), None);
    let mut schedule = publisher.schedule();
    let mut rounds = 0;
    for _ in 0..4 {
        if schedule.action() == PublishAction::Publish {
            rounds += 1;
            schedule.on_published();
        }
        schedule.on_tick();
    }
    // The first tick comes at once: four of them are three intervals, the last round yet to come.
    assert_eq!(rounds, 3);
    assert_eq!(schedule.action(), PublishAction::Publish);
    assert!(publisher.stop());
    assert!(!publisher.stop());
    assert!(publisher.start().is_some());
}
