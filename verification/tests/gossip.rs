use tonic_iroh_transport::gossip::{
    handler_step, recv_step, topic_for, topic_for_with, GossipConfig, GossipContext, GossipError,
    GossipEvent, GossipRequest, GossipStatusCode, HandlerEvent, HandlerStep, RecvStep, TopicId,
};
use tonic_iroh_transport::keys::{EndpointId, SecretKey};

#[test]
fn test_topic_for_deterministic() {
    let topic1 = topic_for("test.package", "TestMessage");
    let topic2 = topic_for("test.package", "TestMessage");
    assert_eq!(topic1, topic2);
}

#[test]
fn test_topic_for_different_types() {
    let topic1 = topic_for("test.package", "MessageA");
    let topic2 = topic_for("test.package", "MessageB");
    assert_ne!(topic1, topic2);
}

#[test]
fn test_topic_for_with_discriminator() {
    let topic1 = topic_for_with("test.package", "TestMessage", b"room1");
    let topic2 = topic_for_with("test.package", "TestMessage", b"room2");
    let topic3 = topic_for_with("test.package", "TestMessage", b"room1");

    assert_ne!(topic1, topic2);
    assert_eq!(topic1, topic3);
}

#[test]
fn test_discriminator_changes_topic() {
    let base = topic_for("test.package", "TestMessage");
    let with_disc = topic_for_with("test.package", "TestMessage", b"room1");
    assert_ne!(base, with_disc);
}

#[test]
fn topics_hash_the_full_name() {
    assert_eq!(
        *topic_for("pkg", "Msg").as_bytes(),
        *blake3::hash(b"pkg.Msg").as_bytes()
    );
    assert_eq!(
        *topic_for_with("pkg", "Msg", &[0x0f, 0xa0, b'z']).as_bytes(),
        *blake3::hash(b"pkg.Msg/0fa07a").as_bytes()
    );
    assert_eq!(
        *topic_for_with("pkg", "Msg", b"").as_bytes(),
        *blake3::hash(b"pkg.Msg/").as_bytes()
    );
}

fn peer() -> EndpointId {
    SecretKey::from_bytes(&[1; 32]).public()
}

fn received(
    content: Result<u32, String>,
) -> Option<Result<GossipEvent<Result<u32, String>>, String>> {
    Some(Ok(GossipEvent::Received {
        content,
        delivered_from: peer(),
    }))
}

#[test]
fn receiving_passes_over_neighbor_events() {
    let topic = TopicId::from_bytes([3; 32]);
    for event in [
        GossipEvent::NeighborUp(peer()),
        GossipEvent::NeighborDown(peer()),
        GossipEvent::Lagged,
    ] {
        let step: RecvStep<u32, u8> = recv_step(topic, 0, Some(Ok(event)));
        assert!(matches!(step, RecvStep::Skip));
    }
    match recv_step(topic, 9u8, received(Ok(5))) {
        RecvStep::Yield(Ok((context, 5))) => {
            assert_eq!(context.topic_id, topic);
            assert_eq!(context.received_at, 9);
            assert_eq!(context.delivered_from, peer());
        }
        _ => panic!("expected the message"),
    }
    match recv_step(topic, 9u8, received(Err("short".to_string()))) {
        RecvStep::Yield(Err(e)) => {
            assert_eq!(e.message(), "failed to decode message: short");
            assert_eq!(
                e.to_status(),
                (
                    GossipStatusCode::InvalidArgument,
                    "decode error: short".to_string()
                )
            );
        }
        _ => panic!("expected an error"),
    }
    let failed: RecvStep<u32, u8> = recv_step(topic, 0, Some(Err("closed".to_string())));
    match failed {
        RecvStep::Yield(Err(e)) => {
            assert_eq!(e.message(), "gossip error: closed");
            assert_eq!(
                e.to_status(),
                (GossipStatusCode::Internal, "gossip error: closed".to_string())
            );
            assert!(matches!(e, GossipError::Api(_)));
        }
        _ => panic!("expected an error"),
    }
    let ended: RecvStep<u32, u8> = recv_step(topic, 0, None);
    assert!(matches!(ended, RecvStep::End));
}

#[test]
fn handler_goes_on_until_shutdown_error_or_end() {
    let topic = TopicId::from_bytes([3; 32]);
    let step = |event| handler_step::<u32, u8, char>(event, topic, 4, 's');
    match step(HandlerEvent::Next(received(Ok(8)))) {
        HandlerStep::Handle(request) => {
            assert_eq!(*request.get_ref(), 8);
            assert_eq!(*request.sender(), 's');
            assert_eq!(request.context().topic_id, topic);
            assert_eq!(request.context().received_at, 4);
            assert_eq!(request.context().delivered_from, peer());
            assert_eq!(request.into_inner(), 8);
        }
        _ => panic!("expected a request"),
    }
    assert!(matches!(
        step(HandlerEvent::Next(received(Err("x".to_string())))),
        HandlerStep::Skip
    ));
    for event in [
        GossipEvent::NeighborUp(peer()),
        GossipEvent::NeighborDown(peer()),
        GossipEvent::Lagged,
    ] {
        assert!(matches!(
            step(HandlerEvent::Next(Some(Ok(event)))),
            HandlerStep::Skip
        ));
    }
    assert!(matches!(
        step(HandlerEvent::Next(Some(Err("x".to_string())))),
        HandlerStep::Stop
    ));
    assert!(matches!(step(HandlerEvent::Next(None)), HandlerStep::Stop));
    assert!(matches!(step(HandlerEvent::Shutdown), HandlerStep::Stop));
    assert!(GossipConfig::default().bootstrap.is_empty());
    let request = GossipRequest::new(
        1u8,
        GossipContext {
            topic_id: topic,
            received_at: (),
            delivered_from: peer(),
        },
        (),
    );
    assert_eq!(request.into_inner(), 1);
}
