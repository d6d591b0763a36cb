use std::time::Duration;
use tonic_iroh_transport::channel::{
    apply_origin, join_rewritten, rewrite_uri, BodyFrame, BodyPhase, BodyPump, DataEvent,
    FrameStep, PumpStep, IrohResponseBody, TrailersEvent, UriParts, MAX_OUTBOUND_BODY_BYTES,
};
use tonic_iroh_transport::client::{
    connect, connect_alpn, connect_failure_kind, connecting_error_to_io, connection_error_to_io,
    ConnectBuilder, ConnectFailure, ConnectingFailure, ConnectionFailure,
};
use tonic_iroh_transport::error::Error;
use tonic_iroh_transport::io_error::IoErrorKind;
use tonic_iroh_transport::keys::SecretKey;
use tonic_iroh_transport::otel::{TraceContextExtractor, TraceContextInjector};
use tonic_iroh_transport::rpc::RpcServer;
use tonic_iroh_transport::server::{
    accept_step, AcceptStep, GrpcProtocolHandler, QueueState, DEFAULT_INCOMING_BUFFER_CAPACITY,
};
use tonic_iroh_transport::stream::{is_long_stall, write_error_to_io, StreamLog, WriteFailure};
use tonic_iroh_transport::swarm::dht::publisher::{DhtPublisher, DhtPublisherConfig};
use tonic_iroh_transport::transport::TransportBuilder;
use tonic_iroh_transport::user_data::{user_data_alpns, user_data_has_service};

#[test]
fn requests_get_the_origin() {
    assert_eq!(
        rewrite_uri("/echo.Echo/Say?x=1", "http://iroh.local"),
        Some("http://iroh.local/echo.Echo/Say?x=1".to_string())
    );
    assert_eq!(
        rewrite_uri("https://other.example/echo.Echo/Say", "http://iroh.local"),
        Some("http://iroh.local/echo.Echo/Say".to_string())
    );
    assert_eq!(
        rewrite_uri("/echo.Echo/Say", "/no-origin"),
        Some("http://iroh.local/echo.Echo/Say".to_string())
    );
    assert_eq!(rewrite_uri("host:80", "http://iroh.local"), None);
    assert_eq!(rewrite_uri("not a uri", "http://iroh.local"), None);
    assert_eq!(rewrite_uri("/ok", "not a uri"), None);
}

#[test]
fn origin_parts_have_defaults() {
    let parts = |scheme: Option<&str>, authority: Option<&str>, path: Option<&str>| UriParts {
        scheme: scheme.map(str::to_string),
        authority: authority.map(str::to_string),
        path_and_query: path.map(str::to_string),
    };
    let uri = parts(Some("https"), Some("old"), Some("/p?q"));
    let bare = apply_origin(uri, &parts(None, None, Some("/ignored")));
    assert_eq!(bare.scheme.as_deref(), Some("http"));
    assert_eq!(bare.authority.as_deref(), Some("iroh.local"));
    assert_eq!(bare.path_and_query.as_deref(), Some("/p?q"));
    assert_eq!(
        join_rewritten(
            parts(None, None, Some("/p")),
            &parts(Some("https"), Some("new:1"), None)
        ),
        Some("https://new:1/p".to_string())
    );
    assert_eq!(
        join_rewritten(parts(None, None, None), &parts(Some("https"), Some("new"), None)),
        None
    );
}

#[test]
fn request_bodies_are_limited() {
    let mut pump = BodyPump::new();
    assert!(matches!(
        pump.on_frame(BodyFrame::Data(MAX_OUTBOUND_BODY_BYTES)),
        PumpStep::SendData
    ));
    assert!(matches!(pump.on_frame(BodyFrame::Data(0)), PumpStep::SendData));
    match pump.on_frame(BodyFrame::Data(1)) {
        PumpStep::Fail(Error::Connection(text)) => {
            assert_eq!(text, "outbound body exceeded 4194304 byte limit")
        }
        _ => panic!("expected an error"),
    }
    assert!(matches!(
        BodyPump::new().on_frame(BodyFrame::Data(usize::MAX)),
        PumpStep::Fail(_)
    ));
    assert!(matches!(pump.on_frame(BodyFrame::Other), PumpStep::Skip));
    assert!(matches!(
        pump.on_frame(BodyFrame::Trailers),
        PumpStep::SendTrailers
    ));
    assert!(matches!(pump.on_frame(BodyFrame::End), PumpStep::Finish));
    match pump.on_frame(BodyFrame::Failed("broken".to_string())) {
        PumpStep::Fail(e) => {
            assert_eq!(e.message(), "Connection error: request body error: broken")
        }
        _ => panic!("expected an error"),
    }
}

#[test]
fn response_bodies_yield_data_then_trailers() {
    assert_eq!(IrohResponseBody::default().phase(), BodyPhase::Done);
    assert!(matches!(
        IrohResponseBody::default().at_end(),
        Some(FrameStep::End)
    ));
    let mut body = IrohResponseBody::new();
    assert_eq!(body.phase(), BodyPhase::Data);
    assert!(body.at_end().is_none());
    assert!(matches!(body.on_data(DataEvent::Chunk), FrameStep::Data));
    assert!(matches!(
        body.on_data(DataEvent::End),
        FrameStep::AwaitTrailers
    ));
    assert_eq!(body.phase(), BodyPhase::Trailers);
    assert!(matches!(
        body.on_trailers(TrailersEvent::Received),
        FrameStep::Trailers
    ));
    assert_eq!(body.phase(), BodyPhase::Done);
    for _ in 0..3 {
        assert!(matches!(body.at_end(), Some(FrameStep::End)));
    }

    let mut body = IrohResponseBody::new();
    body.on_data(DataEvent::End);
    assert!(matches!(
        body.on_trailers(TrailersEvent::Absent),
        FrameStep::End
    ));
}

#[test]
fn response_body_errors_have_texts() {
    let text = |step: FrameStep| match step {
        FrameStep::Fail(text) => text,
        _ => panic!("expected an error"),
    };
    let mut body = IrohResponseBody::new();
    let step = body.on_data(DataEvent::ChunkUnreleased("a".to_string()));
    assert_eq!(text(step), "flow control error: a");
    assert_eq!(body.phase(), BodyPhase::Done);
    let mut body = IrohResponseBody::new();
    let step = body.on_data(DataEvent::Failed("b".to_string()));
    assert_eq!(text(step), "h2 data error: b");
    assert_eq!(body.phase(), BodyPhase::Done);
    let mut body = IrohResponseBody::new();
    body.on_data(DataEvent::End);
    let step = body.on_trailers(TrailersEvent::Failed("c".to_string()));
    assert_eq!(text(step), "h2 trailers error: c");
    assert_eq!(body.phase(), BodyPhase::Done);
}

#[test]
fn connection_failures_have_kinds() {
    let kinds: Vec<IoErrorKind> = [
        ConnectionFailure::VersionMismatch,
        ConnectionFailure::TransportError,
        ConnectionFailure::ConnectionClosed,
        ConnectionFailure::ApplicationClosed,
        ConnectionFailure::Reset,
        ConnectionFailure::TimedOut,
        ConnectionFailure::LocallyClosed,
        ConnectionFailure::CidsExhausted,
    ]
    .into_iter()
    .map(connection_error_to_io)
    .collect();
    assert_eq!(
        kinds,
        vec![
            IoErrorKind::Unsupported,
            IoErrorKind::InvalidData,
            IoErrorKind::ConnectionAborted,
            IoErrorKind::ConnectionReset,
            IoErrorKind::ConnectionReset,
            IoErrorKind::TimedOut,
            IoErrorKind::NotConnected,
            IoErrorKind::Other,
        ]
    );
    assert_eq!(
        connecting_error_to_io(ConnectingFailure::Connection(ConnectionFailure::TimedOut)),
        IoErrorKind::TimedOut
    );
    assert_eq!(
        connecting_error_to_io(ConnectingFailure::HandshakeFailure),
        IoErrorKind::PermissionDenied
    );
    assert_eq!(
        connecting_error_to_io(ConnectingFailure::Other),
        IoErrorKind::Other
    );
    assert_eq!(
        connect_failure_kind(ConnectFailure::Begin),
        IoErrorKind::ConnectionRefused
    );
    assert_eq!(
        connect_failure_kind(ConnectFailure::Establish(ConnectingFailure::HandshakeFailure)),
        IoErrorKind::PermissionDenied
    );
    assert_eq!(
        connect_failure_kind(ConnectFailure::OpenStream(ConnectionFailure::Reset)),
        IoErrorKind::ConnectionReset
    );
}

#[test]
fn write_failures_have_kinds() {
    assert_eq!(write_error_to_io(WriteFailure::Stopped), IoErrorKind::BrokenPipe);
    assert_eq!(
        write_error_to_io(WriteFailure::ConnectionLost),
        IoErrorKind::ConnectionAborted
    );
    assert_eq!(
        write_error_to_io(WriteFailure::ClosedStream),
        IoErrorKind::NotConnected
    );
    assert_eq!(
        write_error_to_io(WriteFailure::ZeroRttRejected),
        IoErrorKind::Other
    );
}

#[test]
fn connections_are_built() {
    let builder: ConnectBuilder<&str, u8, char> = connect("endpoint", 7, "echo.Echo");
    assert_eq!(builder.alpn, b"/echo.Echo/1.0");
    assert_eq!((builder.endpoint, builder.target), ("endpoint", 7));
    assert!(builder.connect_timeout.is_none() && builder.transport_config.is_none());
    let builder = builder
        .connect_timeout(Duration::from_secs(3))
        .transport_config('c');
    assert_eq!(builder.connect_timeout, Some(Duration::from_secs(3)));
    assert_eq!(builder.transport_config, Some('c'));
    let custom: ConnectBuilder<(), (), ()> = connect_alpn((), (), b"/my.custom.Service/1.0");
    assert_eq!(custom.alpn, b"/my.custom.Service/1.0");
}

#[test]
fn streams_log_a_few_events() {
    let mut log: StreamLog<u32> = StreamLog::new();
    for event in 1..=6u8 {
        let report = log.on_read(10, 15);
        assert_eq!(report.event, Some(event));
        assert_eq!(report.total_read_events, event);
        assert_eq!(report.bytes, 5);
        assert_eq!(report.resumed_from, None);
        assert_eq!(log.on_write(), Some(event));
        assert_eq!(log.on_flush(), Some(event));
        assert_eq!(log.on_shutdown(), Some(event));
    }
    assert_eq!(log.read_events(), 6);
    let report = log.on_read(15, 10);
    assert_eq!(report.event, None);
    assert_eq!(report.total_read_events, 7);
    assert_eq!(report.bytes, 0);
    assert_eq!(log.on_write(), None);
    assert_eq!(log.on_flush(), None);
    assert_eq!(log.on_shutdown(), None);

    for event in 1..=4u8 {
        assert_eq!(log.on_read_pending(event as u32), Some(event));
        assert_eq!(log.on_read_pending(99), None);
        assert_eq!(log.on_read(0, 1).resumed_from, Some(event as u32));
    }
    assert_eq!(log.on_read_pending(5), None);
    assert_eq!(log.on_read(0, 1).resumed_from, Some(5));
    assert!(is_long_stall(100) && !is_long_stall(99));
}

#[test]
fn streams_are_accepted_or_refused() {
    assert_eq!(accept_step(Some(QueueState::Room)), AcceptStep::Forward);
    assert_eq!(accept_step(Some(QueueState::Full)), AcceptStep::Reject(1));
    assert_eq!(
        accept_step(Some(QueueState::Closed)),
        AcceptStep::RejectAndStop(1)
    );
    assert_eq!(accept_step(None), AcceptStep::Stop);
    let handler = GrpcProtocolHandler::with_sender("shared-service".to_string(), 5u8);
    assert_eq!(*handler.sender(), 5);
    assert_eq!(handler.service_name(), "shared-service");
}

#[test]
fn transport_announces_its_services() {
    let plan = TransportBuilder::<&str, u8, ()>::new("endpoint")
        .add_rpc("echo.Echo", 1)
        .add_rpc("chat.Chat", 2)
        .with_publisher(DhtPublisher::new(
            (),
            SecretKey::from_bytes(&[1; 32]),
            DhtPublisherConfig::default(),
        ))
        .spawn()
        .expect("short enough");
    assert_eq!(plan.endpoint, "endpoint");
    assert_eq!(plan.services, vec![1, 2]);
    assert_eq!(plan.incoming_buffer_capacity, DEFAULT_INCOMING_BUFFER_CAPACITY);
    assert!(plan.serves_rpc);
    let data = plan.user_data.expect("services are announced");
    assert!(user_data_has_service(&data, "echo.Echo"));
    assert!(user_data_has_service(&data, "chat.Chat"));
    assert_eq!(
        user_data_alpns(&data),
        vec![b"/echo.Echo/1.0".to_vec(), b"/chat.Chat/1.0".to_vec()]
    );
    let jobs = plan.publisher.expect("publisher stays").jobs();
    assert_eq!(jobs.len(), 4);
    assert_eq!(jobs[0].alpn, b"/echo.Echo/1.0");
    assert_eq!(jobs[2].alpn, b"/chat.Chat/1.0");
}

#[test]
fn transport_without_services_announces_nothing() {
    let plan = TransportBuilder::<(), u8, ()>::new(())
        .incoming_buffer_capacity(0)
        .spawn()
        .expect("nothing to announce");
    assert_eq!(plan.incoming_buffer_capacity, 1);
    assert!(plan.user_data.is_none() && plan.publisher.is_none() && !plan.serves_rpc);

    let long = "x".repeat(300);
    match TransportBuilder::<(), u8, ()>::new(())
        .incoming_buffer_capacity(9)
        .add_rpc(&long, 1)
        .spawn()
    {
        Err(e) => assert_eq!(
            e.message(),
            "Address lookup metadata error: encoded ALPN metadata exceeds 245 bytes"
        ),
        Ok(_) => panic!("expected an error"),
    }
}

#[test]
fn rpc_server_collects_services() {
    let server = RpcServer::new("endpoint");
    assert!(!server.has_services());
    let server = server.add_service('a').add_service('b');
    assert!(server.has_services());
    assert_eq!(server.serve(), ("endpoint", vec!['a', 'b']));
}

#[test]
fn trace_context_travels_as_text() {
    let injector = TraceContextInjector::default();
    assert_eq!(
        injector.entry("Traceparent", "00-ab-cd-01".to_string()),
        Some(("traceparent".to_string(), "00-ab-cd-01".to_string()))
    );
    assert_eq!(injector.entry("trace-bin", "x".to_string()), None);
    assert_eq!(injector.entry("bad key", "x".to_string()), None);
    assert_eq!(injector.entry("", "x".to_string()), None);
    assert_eq!(injector.entry("tracestate", "a\nb".to_string()), None);
    assert_eq!(injector.entry("tracestate", "a\u{7f}".to_string()), None);
    assert_eq!(
        injector.entry("tracestate", "a\tb".to_string()),
        Some(("tracestate".to_string(), "a\tb".to_string()))
    );

    let extractor = TraceContextExtractor::default();
    assert_eq!(extractor.value(None), None);
    assert_eq!(
        extractor.value(Some(b"00-ab-cd-01")),
        Some("00-ab-cd-01".to_string())
    );
    assert_eq!(extractor.value(Some(&[b'a', 0xc3, 0xa9])), None);
    assert_eq!(extractor.value(Some(b"")), Some(String::new()));
}
