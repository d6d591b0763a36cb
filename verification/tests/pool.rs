use std::time::Duration;
use tonic_iroh_transport::error::Error;
use tonic_iroh_transport::keys::{EndpointId, SecretKey};
use tonic_iroh_transport::pool::actor::{ForwardOutcome, ForwardStep, PoolActor};
use tonic_iroh_transport::pool::connection::{
    connect_outcome, ConnectAttempt, ConnectionActor, ConnectionCounter, ConnectionEvent,
    ConnectionReport, LeaseReply,
};
use tonic_iroh_transport::pool::{
    drop_shuts_down, mailbox_step, LeaseAttempts, MailboxStep, OpenStep, PoolError, PoolOptions,
    StreamAttempts,
};

fn id(byte: u8) -> EndpointId {
    SecretKey::from_bytes(&[byte; 32]).public()
}

fn request(pool: &mut PoolActor<char>, peer: EndpointId, tx: char) -> Result<u64, PoolError> {
    assert!(!pool.begin_request(&peer));
    pool.open_connection(peer, tx)
}

#[test]
fn pool_options_default() {
    let options = PoolOptions::default().clone();
    assert_eq!(options.idle_timeout, Duration::from_secs(10));
    assert_eq!(options.connect_timeout, Duration::from_secs(5));
    assert_eq!(options.max_connections, 1024);
}

#[test]
fn pool_errors_have_texts() {
    let texts: Vec<String> = [
        PoolError::Shutdown,
        PoolError::Timeout,
        PoolError::NoRuntime,
        PoolError::TooManyConnections,
        PoolError::Busy,
        PoolError::Closed,
        PoolError::Connect("no route".to_string()),
    ]
    .iter()
    .map(|e| Error::Pool(e.clone()).message())
    .collect();
    assert_eq!(
        texts,
        vec![
            "Pool error: connection pool is shut down",
            "Pool error: connection timed out",
            "Pool error: no tokio runtime is active",
            "Pool error: too many connections",
            "Pool error: pooled connection is busy",
            "Pool error: connection closed before reuse",
            "Pool error: connect error: no route",
        ]
    );
    assert_eq!(
        Error::dht_discovery("x".to_string()).message(),
        "DHT discovery error: x"
    );
}

#[test]
fn pool_reuses_connections_and_reopens_closed_ones() {
    let mut pool = PoolActor::new(4);
    assert_eq!(request(&mut pool, id(1), 'a').expect("room"), 1);
    assert!(pool.begin_request(&id(1)));
    assert_eq!(pool.sender(&id(1)), Some(&'a'));
    assert!(matches!(
        pool.forwarded(&id(1), ForwardOutcome::Sent),
        ForwardStep::Done
    ));
    assert!(pool.begin_request(&id(1)));
    assert!(matches!(
        pool.forwarded(&id(1), ForwardOutcome::Full),
        ForwardStep::Refuse(PoolError::Busy)
    ));
    assert!(pool.begin_request(&id(1)));
    assert!(matches!(
        pool.forwarded(&id(1), ForwardOutcome::Closed),
        ForwardStep::Open
    ));
    assert_eq!(pool.open_connection(id(1), 'b').expect("room"), 2);
    assert_eq!(pool.sender(&id(1)), Some(&'b'));
    assert_eq!(pool.connection_count(), 1);
}

#[test]
fn full_pool_evicts_the_longest_idle_connection() {
    let mut pool = PoolActor::new(2);
    request(&mut pool, id(1), 'a').expect("room");
    request(&mut pool, id(2), 'b').expect("room");
    assert!(matches!(
        request(&mut pool, id(3), 'c'),
        Err(PoolError::TooManyConnections)
    ));
    pool.on_idle(id(1), 1);
    pool.on_idle(id(2), 2);
    pool.on_idle(id(1), 1);
    assert_eq!(request(&mut pool, id(3), 'c').expect("room"), 3);
    assert_eq!(pool.sender(&id(2)), None);
    assert_eq!(pool.sender(&id(1)), Some(&'a'));
    // A request takes the connection out of the idle ones.
    assert!(pool.begin_request(&id(1)));
    assert!(matches!(
        request(&mut pool, id(4), 'd'),
        Err(PoolError::TooManyConnections)
    ));
    assert_eq!(pool.connection_count(), 2);
}

#[test]
fn stale_reports_change_nothing() {
    let mut pool = PoolActor::new(2);
    request(&mut pool, id(1), 'a').expect("room");
    pool.on_shutdown(id(1), 1);
    assert_eq!(pool.sender(&id(1)), None);
    assert_eq!(request(&mut pool, id(1), 'b').expect("room"), 2);
    pool.on_shutdown(id(1), 1);
    assert_eq!(pool.sender(&id(1)), Some(&'b'));
    pool.on_idle(id(1), 1);
    request(&mut pool, id(2), 'c').expect("room");
    assert!(request(&mut pool, id(3), 'd').is_err());
    pool.clear();
    assert_eq!(pool.connection_count(), 0);
    let mut none: PoolActor<char> = PoolActor::new(0);
    assert!(request(&mut none, id(1), 'a').is_err());
}

#[test]
fn connections_are_leased_idle_and_retired() {
    let outcome = connect_outcome(ConnectAttempt::Connected(7u8));
    let (mut actor, connection, report) = ConnectionActor::start(outcome);
    assert_eq!(connection, Some(7));
    assert!(report.is_none());
    assert!(actor.is_connected() && actor.awaits_shutdown() && !actor.awaits_idle_timeout());

    let step = actor.on_event(
        ConnectionEvent::Request {
            already_closed: false,
        },
        0,
    );
    assert!(matches!(step.reply, Some(LeaseReply::Grant)));
    assert!(step.report.is_none() && !step.stop && !step.start_idle_timer);

    let step = actor.on_event(ConnectionEvent::LeasesReturned, 1);
    assert!(step.report.is_none() && !step.start_idle_timer);
    let step = actor.on_event(ConnectionEvent::LeasesReturned, 0);
    assert!(matches!(step.report, Some(ConnectionReport::Idle)));
    assert!(step.start_idle_timer && actor.awaits_idle_timeout());

    actor.on_event(
        ConnectionEvent::Request {
            already_closed: false,
        },
        0,
    );
    assert!(!actor.awaits_idle_timeout());
    actor.on_event(ConnectionEvent::LeasesReturned, 0);
    let step = actor.on_event(ConnectionEvent::IdleElapsed, 0);
    assert!(matches!(step.report, Some(ConnectionReport::Shutdown)) && step.stop);
    assert_eq!(actor.close_reason(0), Some("idle"));
    assert_eq!(actor.close_reason(2), Some("drop"));
}

#[test]
fn leased_connection_outlives_the_pool() {
    let (mut actor, _, _) = ConnectionActor::start(Ok(()));
    let step = actor.on_event(ConnectionEvent::ShutdownSignalled, 1);
    assert!(!step.stop);
    assert!(!actor.awaits_shutdown());
    let step = actor.on_event(ConnectionEvent::LeasesReturned, 0);
    assert!(step.stop && step.report.is_none());

    let (mut unused, _, _) = ConnectionActor::start(Ok(()));
    assert!(unused.on_event(ConnectionEvent::ShutdownSignalled, 0).stop);
    let (mut late, _, _) = ConnectionActor::start(Ok(()));
    late.observe_shutdown(false);
    assert!(late.awaits_shutdown());
    late.observe_shutdown(true);
    assert!(!late.awaits_shutdown());
}

#[test]
fn closed_connections_are_reported() {
    let (mut actor, _, _) = ConnectionActor::start(Ok(()));
    let step = actor.on_event(
        ConnectionEvent::Request {
            already_closed: true,
        },
        0,
    );
    assert!(matches!(step.report, Some(ConnectionReport::Shutdown)));
    assert!(matches!(
        step.reply,
        Some(LeaseReply::Refuse(PoolError::Closed))
    ));
    assert!(step.stop);
    let (mut actor, _, _) = ConnectionActor::start(Ok(()));
    let step = actor.on_event(ConnectionEvent::Closed, 3);
    assert!(matches!(step.report, Some(ConnectionReport::Shutdown)) && step.stop);
    assert!(actor.on_event(ConnectionEvent::MailboxClosed, 3).stop);
}

#[test]
fn failed_connections_refuse_every_request() {
    let outcome = connect_outcome::<u8>(ConnectAttempt::TimedOut);
    let (mut actor, connection, report) = ConnectionActor::start(outcome);
    assert!(connection.is_none() && !actor.is_connected());
    assert!(matches!(report, Some(ConnectionReport::Shutdown)));
    for _ in 0..3 {
        let step = actor.on_event(
            ConnectionEvent::Request {
                already_closed: false,
            },
            0,
        );
        assert!(matches!(
            step.reply,
            Some(LeaseReply::Refuse(PoolError::Timeout))
        ));
        assert!(!step.stop && step.report.is_none());
    }
    assert_eq!(actor.close_reason(0), None);
    match connect_outcome::<u8>(ConnectAttempt::Failed("no route".to_string())) {
        Err(PoolError::Connect(cause)) => assert_eq!(cause, "no route"),
        _ => panic!("expected an error"),
    }
}

#[test]
fn leases_are_counted() {
    let mut counter = ConnectionCounter::new();
    assert!(counter.is_idle());
    counter.get_one();
    counter.get_one();
    assert_eq!(counter.current(), 2);
    assert!(!counter.give_back());
    assert!(counter.give_back());
    assert!(counter.is_idle());
}

#[test]
fn mailboxes_need_an_open_pool_and_a_runtime() {
    assert!(matches!(
        mailbox_step(true, true, true),
        MailboxStep::Refuse(PoolError::Shutdown)
    ));
    assert!(matches!(mailbox_step(false, true, false), MailboxStep::Use));
    assert!(matches!(mailbox_step(false, false, true), MailboxStep::Start));
    assert!(matches!(
        mailbox_step(false, false, false),
        MailboxStep::Refuse(PoolError::NoRuntime)
    ));
    assert!(drop_shuts_down(1) && !drop_shuts_down(2));
}

#[test]
fn leases_are_asked_for_twice() {
    let mut attempts = LeaseAttempts::new();
    assert!(attempts
        .on_reply::<u8>(Some(Err(PoolError::Closed)))
        .is_none());
    assert!(matches!(
        attempts.on_reply::<u8>(Some(Err(PoolError::Closed))),
        Some(Err(PoolError::Closed))
    ));
    let mut attempts = LeaseAttempts::new();
    assert!(matches!(
        attempts.on_reply::<u8>(Some(Err(PoolError::Busy))),
        Some(Err(PoolError::Busy))
    ));
    assert!(matches!(
        LeaseAttempts::new().on_reply::<u8>(None),
        Some(Err(PoolError::Shutdown))
    ));
    assert!(matches!(
        LeaseAttempts::new().on_reply(Some(Ok(4u8))),
        Some(Ok(4))
    ));
}

#[test]
fn streams_are_tried_twice() {
    let mut attempts = StreamAttempts::new();
    assert!(matches!(
        attempts.on_open::<u8>(Err("lost".to_string())),
        OpenStep::Retry
    ));
    match attempts.on_open::<u8>(Err("lost again".to_string())) {
        OpenStep::Abort(cause) => assert_eq!(cause, "lost again"),
        _ => panic!("expected the end"),
    }
    assert!(matches!(
        StreamAttempts::new().on_open(Ok(3u8)),
        OpenStep::Opened(3)
    ));
}
