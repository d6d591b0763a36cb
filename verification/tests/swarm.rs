use std::time::Duration;
use tonic_iroh_transport::error::Error;
use tonic_iroh_transport::keys::{EndpointId, SecretKey};
use tonic_iroh_transport::pool::PoolOptions;
use tonic_iroh_transport::swarm::connect::{ConnectOptions, ConnectRace, RaceStep};
use tonic_iroh_transport::swarm::discovery::{DiscoveredPeer, Peer};
use tonic_iroh_transport::swarm::engine::SwarmEngine;
use tonic_iroh_transport::swarm::locator::{
    attempt_timed_out, first, pool_options_for, LocatorConfig, LocatorState, PeerStep,
};
use tonic_iroh_transport::swarm::peers::{
    dht_feed, exchanged_peer, mdns_feed, mdns_peer, peer_exchange_feed, scope_matches,
    static_feed, DhtFeed, DhtFeedAction, PeerFeedSpec, Scope,
};
use tonic_iroh_transport::swarm::record::SignedServiceAd;
use tonic_iroh_transport::swarm::registry::{build_feeds, PoolCache, ServiceRegistry};
use tonic_iroh_transport::swarm::stream::{DiscoveryAction, DiscoveryOptions, UnifiedDiscovery};
use tonic_iroh_transport::user_data::encode_alpns;

fn endpoint_id(byte: u8) -> EndpointId {
    SecretKey::from_bytes(&[byte; 32]).public()
}

fn failure(text: &str) -> Error {
    Error::connection(text.to_string())
}

#[test]
fn skips_local_peer_and_dedupes() {
    let local = endpoint_id(1);
    let remote = endpoint_id(2);

    let feeds = vec![
        static_feed(vec![local, remote], 10, 100, Scope::Any),
        static_feed(vec![remote], 20, 100, Scope::Any),
    ];
    let (mut engine, feeds) = SwarmEngine::new(local, b"/svc.Test/1.0", feeds);

    let mut yielded = Vec::new();
    for feed in &feeds {
        for discovered in &feed.inner {
            if let Some(item) = engine.on_item(feed.tag::<Error>(Ok(*discovered))) {
                yielded.push(item.expect("peer should be ok"));
            }
        }
    }
    assert_eq!(yielded.len(), 1, "one remote peer expected");
    assert_eq!(yielded[0].id(), remote);
    assert_eq!(yielded[0].source(), "static");
    assert_eq!(yielded[0].source_trust(), 100);
    assert_eq!(yielded[0].trust(), 100);
}

#[test]
fn engine_passes_errors_on() {
    let (mut engine, feeds) =
        SwarmEngine::new::<u8>(endpoint_id(1), b"/svc.Test/1.0", Vec::new());
    assert!(feeds.is_empty());
    match engine.on_item(Err(failure("feed"))) {
        Some(Err(e)) => assert_eq!(e.message(), "Connection error: feed"),
        _ => panic!("expected the error"),
    }
}

fn feed(name: &'static str, priority: u8, scope: Scope) -> PeerFeedSpec<u32> {
    PeerFeedSpec {
        name,
        priority,
        trust: priority,
        scope,
        stream: 0,
    }
}

#[test]
fn engine_draws_from_feeds_in_scope_by_priority() {
    let feeds = vec![
        feed("late", 30, Scope::Any),
        feed("other", 1, Scope::Service(b"/other/1.0".to_vec())),
        feed("tie-a", 20, Scope::Service(b"/svc/1.0".to_vec())),
        feed("early", 5, Scope::Any),
        feed("tie-b", 20, Scope::Any),
    ];
    let (_, chosen) = SwarmEngine::new(endpoint_id(1), b"/svc/1.0", feeds);
    let names: Vec<&str> = chosen.iter().map(|f| f.name).collect();
    assert_eq!(names, vec!["early", "tie-a", "tie-b", "late"]);
    assert_eq!(chosen[0].trust, 5);
}

#[test]
fn scopes_cover_services() {
    assert!(scope_matches(&Scope::Any, b"x"));
    assert!(scope_matches(&Scope::Service(b"x".to_vec()), b"x"));
    assert!(!scope_matches(&Scope::Service(b"x".to_vec()), b"xy"));
    assert_eq!(Scope::Service(b"x".to_vec()).clone(), Scope::Service(b"x".to_vec()));
    assert_eq!(Scope::Any.clone(), Scope::Any);
}

#[test]
fn feeds_are_described() {
    let mdns = mdns_feed(1u8, b"/svc/1.0".to_vec(), 10, 200);
    assert_eq!((mdns.name, mdns.priority, mdns.trust), ("mdns", 10, 200));
    assert_eq!(mdns.scope, Scope::Service(b"/svc/1.0".to_vec()));
    let dht = dht_feed(1u8, b"/svc/1.0".to_vec(), 100, 50);
    assert_eq!((dht.name, dht.priority, dht.trust), ("dht", 100, 50));
    assert_eq!(dht.scope, Scope::Service(b"/svc/1.0".to_vec()));
    let exchange = peer_exchange_feed(1u8, 7, 8);
    assert_eq!(
        (exchange.name, exchange.priority, exchange.trust),
        ("peer-exchange", 7, 8)
    );
    assert_eq!(exchange.scope, Scope::Any);
    let fixed = static_feed(vec![endpoint_id(1)], 3, 4, Scope::Any);
    assert_eq!((fixed.name, fixed.priority, fixed.trust), ("static", 3, 4));
    assert_eq!(
        fixed.stream,
        vec![DiscoveredPeer {
            id: endpoint_id(1),
            trust: 4
        }]
    );
}

#[test]
fn mdns_needs_the_announced_service() {
    let id = endpoint_id(1);
    let data = encode_alpns(&[b"/svc/1.0".to_vec()]).expect("fits");
    assert_eq!(
        mdns_peer(id, Some(&data), b"/svc/1.0", 9),
        Some(DiscoveredPeer { id, trust: 9 })
    );
    assert_eq!(mdns_peer(id, Some(&data), b"/other/1.0", 9), None);
    assert_eq!(mdns_peer(id, None, b"/svc/1.0", 9), None);
    assert_eq!(
        exchanged_peer(Some(id), 3),
        Some(DiscoveredPeer { id, trust: 3 })
    );
    assert_eq!(exchanged_peer(None, 3), None);
}

fn ad(byte: u8, tags: &[&str]) -> SignedServiceAd {
    let tags: Vec<String> = tags.iter().map(|t| t.to_string()).collect();
    SignedServiceAd::sign(
        &SecretKey::from_bytes(&[byte; 32]),
        b"/svc/1.0",
        1,
        2,
        &tags,
        60,
        120,
    )
    .expect("ad should serialize")
}

fn answer_all(feed: &mut DhtFeed) {
    for shard in feed.shards() {
        assert!(feed
            .on_shard::<Error>(shard, Ok(Vec::new()))
            .expect("no error")
            .is_empty());
    }
}

#[test]
fn dht_feed_bursts_then_polls() {
    let mut feed = DhtFeed::new(&["a".to_string()], 50);
    assert_eq!(feed.action(), DhtFeedAction::QueryShards(0));
    assert_eq!(feed.shards(), (0..16).collect::<Vec<u8>>());
    let peers = feed
        .on_shard::<Error>(
            5,
            Ok(vec![ad(1, &["a", "b"]), ad(2, &["b"]), ad(3, &["a"])]),
        )
        .expect("no error");
    let ids: Vec<EndpointId> = peers.iter().map(|p| p.id).collect();
    assert_eq!(ids, vec![endpoint_id(1), endpoint_id(3)]);
    assert!(peers.iter().all(|p| p.trust == 50));
    assert_eq!(feed.action(), DhtFeedAction::QueryShards(0));
    assert_eq!(feed.shards().len(), 15);
    assert!(!feed.shards().contains(&5));
    answer_all(&mut feed);
    assert_eq!(feed.action(), DhtFeedAction::QueryShards(-1));
    assert_eq!(feed.shards().len(), 16);
    answer_all(&mut feed);
    assert_eq!(feed.action(), DhtFeedAction::AwaitTick);
    assert!(feed.shards().is_empty());
    feed.on_tick();
    assert_eq!(feed.action(), DhtFeedAction::AwaitTick);
    feed.on_tick();
    assert_eq!(feed.action(), DhtFeedAction::QueryShards(0));
    assert_eq!(feed.shards().len(), 16);
    answer_all(&mut feed);
    assert_eq!(feed.action(), DhtFeedAction::AwaitTick);
}

#[test]
fn dht_feed_failures_cut_the_burst_and_end_the_poll() {
    let mut feed = DhtFeed::new(&[], 50);
    assert!(feed.on_shard(0, Err(failure("dht"))).is_err());
    assert_eq!(feed.action(), DhtFeedAction::AwaitTick);
    feed.on_tick();
    feed.on_tick();
    assert_eq!(feed.action(), DhtFeedAction::QueryShards(0));
    assert_eq!(
        feed.on_shard::<Error>(3, Ok(vec![ad(2, &[])]))
            .expect("ok")
            .len(),
        1
    );
    assert!(feed.on_shard(4, Err(failure("dht"))).is_err());
    assert_eq!(feed.action(), DhtFeedAction::End);
    assert!(feed.shards().is_empty());
}

#[test]
fn first_skips_errors_until_success() {
    let results = vec![Err(failure("initial failure")), Ok(5u32), Ok(6)];
    let result = first(results);
    assert!(result.is_ok(), "expected success after initial failure");
    assert_eq!(result.expect("success"), 5);
}

#[test]
fn first_returns_last_error_if_no_success_arrives() {
    let results: Vec<Result<u32, Error>> =
        vec![Err(failure("first failure")), Err(failure("final failure"))];
    match first(results) {
        Err(Error::Connection(message)) => assert_eq!(message, "final failure"),
        other => panic!("expected final connection error, got {other:?}"),
    }
}

#[test]
fn first_without_results_reports_no_peers() {
    match first(Vec::<Result<u32, Error>>::new()) {
        Err(Error::Connection(message)) => assert_eq!(message, "no peers reachable"),
        other => panic!("expected an error, got {other:?}"),
    }
}

fn peer(byte: u8) -> Peer {
    Peer::new(
        DiscoveredPeer {
            id: endpoint_id(byte),
            trust: 1,
        },
        "test",
        2,
    )
}

#[test]
fn locator_keeps_to_its_limit() {
    let config = LocatorConfig {
        max_inflight: 2,
        ..LocatorConfig::default()
    };
    let mut state = LocatorState::new(&config);
    assert!(state.can_discover() && !state.has_inflight() && !state.is_finished());
    assert!(matches!(
        state.on_peer::<Error>(Some(Ok(peer(1)))),
        PeerStep::Attempt(id) if id == endpoint_id(1)
    ));
    assert!(matches!(
        state.on_peer(Some(Err(failure("feed")))),
        PeerStep::Forward(_)
    ));
    state.on_peer::<Error>(Some(Ok(peer(2))));
    assert!(!state.can_discover());
    state.on_attempt_done();
    assert!(state.can_discover());
    assert!(matches!(state.on_peer::<Error>(None), PeerStep::Nothing));
    assert!(!state.can_discover() && state.has_inflight() && !state.is_finished());
    state.on_attempt_done();
    assert!(state.is_finished());

    let none = LocatorConfig {
        max_inflight: 0,
        ..LocatorConfig::default()
    };
    assert!(LocatorState::new(&none).is_finished());
}

#[test]
fn locator_defaults_and_texts() {
    let config = LocatorConfig::default().clone();
    assert_eq!(config.max_inflight, 8);
    assert_eq!(config.timeout_each, Duration::from_secs(2));
    assert_eq!(config.timeout, None);
    assert_eq!(config.limit, 4);
    let options = pool_options_for(&config);
    assert_eq!(options.connect_timeout, Duration::from_secs(2));
    assert_eq!(options.idle_timeout, Duration::from_secs(10));
    assert_eq!(options.max_connections, 1024);
    assert_eq!(
        attempt_timed_out("2s").message(),
        "Connection error: connection timed out after 2s"
    );
}

#[test]
fn connect_race_fills_up_then_waits() {
    let options = ConnectOptions::default().clone();
    assert_eq!(options.max_inflight, 8);
    assert_eq!(options.per_attempt_timeout, Duration::from_secs(2));
    assert_eq!(options.overall_timeout, None);
    assert_eq!(options.success_buffer, 4);

    let mut race = ConnectRace::new(&ConnectOptions {
        max_inflight: 1,
        ..options
    });
    assert_eq!(race.step(), RaceStep::AwaitPeer);
    assert_eq!(race.on_peer(Some(Err(failure("x")))), None);
    assert_eq!(race.step(), RaceStep::AwaitPeer);
    assert_eq!(race.on_peer::<Error>(Some(Ok(endpoint_id(3)))), Some(endpoint_id(3)));
    assert_eq!(race.step(), RaceStep::AwaitAttempt);
    assert!(matches!(race.on_attempt::<u8, Error>(Some(Ok(4u8))), Some(Ok(4))));
    assert_eq!(race.step(), RaceStep::AwaitPeer);
    assert_eq!(race.on_peer::<Error>(None), None);
    assert_eq!(race.step(), RaceStep::Stop);
    assert!(race.on_attempt::<u8, Error>(None).is_none());
}

#[test]
fn pools_are_shared_by_service_and_options() {
    let mut cache = PoolCache::new();
    let options = PoolOptions::default();
    let other = PoolOptions {
        max_connections: 3,
        ..PoolOptions::default()
    };
    assert_eq!(cache.get(b"a", &options), None);
    assert_eq!(*cache.pool_for_alpn(b"a", &options, || 1u8), 1);
    assert_eq!(*cache.pool_for_alpn(b"a", &options, || 2), 1);
    assert_eq!(*cache.pool_for_alpn(b"a", &other, || 3), 3);
    assert_eq!(*cache.pool_for_alpn(b"b", &options, || 4), 4);
    assert_eq!(cache.get(b"a", &options), Some(&1));
    assert_eq!(cache.get(b"a", &other), Some(&3));
    assert_eq!(cache.get(b"b", &options), Some(&4));
    let slower = PoolOptions {
        idle_timeout: Duration::from_secs(11),
        ..PoolOptions::default()
    };
    assert_eq!(cache.get(b"a", &slower), None);
}

#[test]
fn registry_builds_locators() {
    let mut registry: ServiceRegistry<u8, &str> = ServiceRegistry::new(7);
    assert_eq!(*registry.endpoint(), 7);
    registry.add("static");
    registry.add("dht");
    assert_eq!(registry.backends(), &["static", "dht"]);
    assert_eq!(registry.default_pool_options(), PoolOptions::default());
    let options = PoolOptions {
        connect_timeout: Duration::from_secs(9),
        ..PoolOptions::default()
    };
    registry.with_pool_options(options.clone());
    let builder = registry.find();
    assert_eq!(builder.pool_options, options);
    assert_eq!(builder.locator_cfg.timeout_each, Duration::from_secs(2));

    let builder = builder
        .max_inflight(3)
        .timeout(Duration::from_secs(60))
        .limit(2)
        .timeout_each(Duration::from_secs(4));
    assert_eq!(builder.locator_cfg.max_inflight, 3);
    assert_eq!(builder.locator_cfg.timeout, Some(Duration::from_secs(60)));
    assert_eq!(builder.locator_cfg.limit, 2);
    assert_eq!(builder.locator_cfg.timeout_each, Duration::from_secs(4));
    assert_eq!(builder.pool_options.connect_timeout, Duration::from_secs(4));

    let builder = builder.pool_options(PoolOptions::default());
    assert_eq!(builder.locator_cfg.timeout_each, Duration::from_secs(5));
    assert_eq!(builder.pool_options, PoolOptions::default());
}

#[test]
fn feeds_of_backends_are_concatenated() {
    let feeds = build_feeds(vec![
        vec![feed("a", 1, Scope::Any), feed("b", 2, Scope::Any)],
        vec![],
        vec![feed("c", 0, Scope::Any)],
    ]);
    let names: Vec<&str> = feeds.iter().map(|f| f.name).collect();
    assert_eq!(names, vec!["a", "b", "c"]);
}

#[test]
fn unified_discovery_merges_dht_and_mdns() {
    let options = DiscoveryOptions::default().clone();
    assert_eq!(options.dht_interval, Duration::from_secs(60));
    assert!(options.required_tags.is_empty());
    let mut discovery = UnifiedDiscovery::discover_service_alpn(
        endpoint_id(1),
        b"/svc/1.0",
        &DiscoveryOptions {
            required_tags: vec!["a".to_string()],
            ..options
        },
    );
    assert_eq!(discovery.action(), DiscoveryAction::QueryDht(0));
    assert_eq!(
        discovery.on_record(Some(&ad(2, &["a"]))),
        Some(endpoint_id(2))
    );
    assert_eq!(discovery.action(), DiscoveryAction::QueryDht(-1));
    assert_eq!(discovery.on_record(Some(&ad(3, &["b"]))), None);
    assert_eq!(discovery.action(), DiscoveryAction::SkipTick);
    discovery.on_tick();
    assert_eq!(discovery.action(), DiscoveryAction::AwaitEvent);

    let ours = encode_alpns(&[b"/svc/1.0".to_vec()]).expect("fits");
    let theirs = encode_alpns(&[b"/other/1.0".to_vec()]).expect("fits");
    assert_eq!(discovery.on_mdns(endpoint_id(2), Some(&ours)), None);
    assert_eq!(discovery.on_mdns(endpoint_id(3), Some(&theirs)), None);
    assert_eq!(
        discovery.on_mdns(endpoint_id(3), Some(&ours)),
        Some(endpoint_id(3))
    );
    assert_eq!(
        discovery.on_mdns(endpoint_id(4), None),
        Some(endpoint_id(4))
    );
    assert_eq!(discovery.on_mdns(endpoint_id(1), None), None);

    discovery.on_tick();
    assert_eq!(discovery.action(), DiscoveryAction::QueryDht(0));
    assert_eq!(discovery.on_record(None), None);
    assert_eq!(discovery.action(), DiscoveryAction::AwaitEvent);
}
