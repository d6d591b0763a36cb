//! Gossip protocol integration: topics, messages, and what a handler does at each event.

use crate::hash::{blake3, blake3_digest};
use crate::keys::EndpointId;
use crate::text::joined_texts;
use vstd::prelude::*;
use vstd::string::*;
use vstd::utf8::*;

verus! {

/// The character of a hexadecimal digit.
pub open spec fn hex_char(d: nat) -> char {
    if d < 10 {
        (48 + d) as char
    } else {
        (87 + d) as char
    }
}

/// The bytes in lower-case hexadecimal notation, two digits each.
pub open spec fn hex(bytes: Seq<u8>) -> Seq<char> {
    Seq::new(
        2 * bytes.len(),
        |i: int|
            if i % 2 == 0 {
                hex_char((bytes[i / 2] / 16) as nat)
            } else {
                hex_char((bytes[i / 2] % 16) as nat)
            },
    )
}

/// The full name of a message type.
pub open spec fn message_path(package: Seq<char>, name: Seq<char>) -> Seq<char> {
    package + "."@ + name
}

/// The full name of a message type with a discriminator.
pub open spec fn message_path_with(
    package: Seq<char>,
    name: Seq<char>,
    discriminator: Seq<u8>,
) -> Seq<char> {
    message_path(package, name) + "/"@ + hex(discriminator)
}

/// The topic of a path.
pub open spec fn path_topic(path: Seq<char>) -> Seq<u8> {
    blake3_digest(encode_utf8(path))
}

/// The id of a gossip topic.
#[derive(Debug, Clone, Copy, PartialEq, Eq)]
pub struct TopicId {
    bytes: [u8; 32],
}

impl View for TopicId {
    type V = Seq<u8>;

    closed spec fn view(&self) -> Seq<u8> {
        self.bytes@
    }
}

impl TopicId {
    /// The topic id with these bytes.
    pub fn from_bytes(bytes: [u8; 32]) -> (r: TopicId)
        ensures
            r@ == bytes@,
    {
        TopicId { bytes }
    }

    /// The bytes of the topic id.
    pub fn as_bytes(&self) -> (r: &[u8; 32])
        ensures
            r@ == self@,
    {
        &self.bytes
    }
}

fn path_text(package: &str, name: &str) -> (r: String)
    ensures
        r@ == message_path(package@, name@),
{
    let mut path = String::from_str(package);
    path.append(".");
    path.append(name);
    path
}

/// Derive a topic id from a protobuf message type, given by its package and name.
pub fn topic_for(package: &str, name: &str) -> (r: TopicId)
    ensures
        r@ == path_topic(message_path(package@, name@)),
{
    let path = path_text(package, name);
    TopicId { bytes: blake3(path.as_str().as_bytes()) }
}

/// Derive a topic id from a protobuf message type with a discriminator.
///
/// Useful for creating per-instance topics (e.g., per-room, per-document).
pub fn topic_for_with(package: &str, name: &str, discriminator: &[u8]) -> (r: TopicId)
    ensures
        r@ == path_topic(message_path_with(package@, name@, discriminator@)),
{
    let mut path = path_text(package, name);
    path.append("/");
    let discriminator_hex = hex_text(discriminator);
    path.append(discriminator_hex.as_str());
    TopicId { bytes: blake3(path.as_str().as_bytes()) }
}

fn hex_digit(d: u8) -> (r: &'static str)
    requires
        d < 16,
    ensures
        r@ == seq![hex_char(d as nat)],
{
    proof {
        reveal_strlit("0");
        reveal_strlit("1");
        reveal_strlit("2");
        reveal_strlit("3");
        reveal_strlit("4");
        reveal_strlit("5");
        reveal_strlit("6");
        reveal_strlit("7");
        reveal_strlit("8");
        reveal_strlit("9");
        reveal_strlit("a");
        reveal_strlit("b");
        reveal_strlit("c");
        reveal_strlit("d");
        reveal_strlit("e");
        reveal_strlit("f");
    }
    let r: &'static str = match d {
        0 => "0",
        1 => "1",
        2 => "2",
        3 => "3",
        4 => "4",
        5 => "5",
        6 => "6",
        7 => "7",
        8 => "8",
        9 => "9",
        10 => "a",
        11 => "b",
        12 => "c",
        13 => "d",
        14 => "e",
        _ => "f",
    };
    assert(r@ =~= seq![hex_char(d as nat)]);
    r
}

fn hex_text(bytes: &[u8]) -> (r: String)
    ensures
        r@ == hex(bytes@),
{
    let mut text = String::new();
    let mut i: usize = 0;
    assert(text@ =~= hex(bytes@.take(0)));
    while i < bytes.len()
        invariant
            i <= bytes.len(),
            text@ == hex(bytes@.take(i as int)),
        decreases bytes.len() - i,
    {
        let ghost before = text@;
        text.append(hex_digit(bytes[i] / 16));
        text.append(hex_digit(bytes[i] % 16));
        i = i + 1;
        proof {
            let next = bytes@.take(i as int);
            assert forall|j: int| 0 <= j < 2 * i implies text@[j] == hex(next)[j] by {
                if j < 2 * (i - 1) {
                    assert(text@[j] == before[j]);
                    assert(bytes@.take(i - 1)[j / 2] == next[j / 2]);
                }
            }
            assert(text@ =~= hex(next));
        }
    }
    assert(bytes@.take(i as int) =~= bytes@);
    text
}

/// Different discriminators of one message type hash different paths.
pub proof fn discriminators_differ(package: Seq<char>, name: Seq<char>, d1: Seq<u8>, d2: Seq<u8>)
    requires
        d1 != d2,
    ensures
        encode_utf8(message_path_with(package, name, d1)) != encode_utf8(
            message_path_with(package, name, d2),
        ),
{
    let base = message_path(package, name) + "/"@;
    let p1 = message_path_with(package, name, d1);
    let p2 = message_path_with(package, name, d2);
    if encode_utf8(p1) == encode_utf8(p2) {
        encode_utf8_decode_utf8(p1);
        encode_utf8_decode_utf8(p2);
        assert(p1.skip(base.len() as int) =~= hex(d1));
        assert(p2.skip(base.len() as int) =~= hex(d2));
        assert(hex(d1).len() == hex(d2).len());
        assert forall|k: int| 0 <= k < d1.len() implies d1[k] == d2[k] by {
            assert(hex(d1)[2 * k] == hex(d2)[2 * k]);
            assert(hex(d1)[2 * k + 1] == hex(d2)[2 * k + 1]);
            assert((2 * k) / 2 == k && (2 * k + 1) / 2 == k);
            lemma_hex_char((d1[k] / 16) as nat, (d2[k] / 16) as nat);
            lemma_hex_char((d1[k] % 16) as nat, (d2[k] % 16) as nat);
        }
        assert(d1 =~= d2);
    }
}

proof fn lemma_hex_char(a: nat, b: nat)
    requires
        a < 16,
        b < 16,
        hex_char(a) == hex_char(b),
    ensures
        a == b,
{
    assert(hex_char(a) as int == hex_char(b) as int);
}

/// A discriminator, even an empty one, changes the path that is hashed.
pub proof fn discriminator_changes_path(package: Seq<char>, name: Seq<char>, d: Seq<u8>)
    ensures
        encode_utf8(message_path_with(package, name, d)) != encode_utf8(
            message_path(package, name),
        ),
{
    let with = message_path_with(package, name, d);
    let base = message_path(package, name);
    reveal_strlit("/");
    assert(with.len() > base.len());
    encode_utf8_decode_utf8(with);
    encode_utf8_decode_utf8(base);
}

/// Different message types of one package hash different paths.
pub proof fn message_types_differ(package: Seq<char>, name1: Seq<char>, name2: Seq<char>)
    requires
        name1 != name2,
    ensures
        encode_utf8(message_path(package, name1)) != encode_utf8(message_path(package, name2)),
{
    let p1 = message_path(package, name1);
    let p2 = message_path(package, name2);
    if encode_utf8(p1) == encode_utf8(p2) {
        encode_utf8_decode_utf8(p1);
        encode_utf8_decode_utf8(p2);
        let n = (package + "."@).len() as int;
        assert(p1.skip(n) =~= name1);
        assert(p2.skip(n) =~= name2);
    }
}

/// Context information for gossip messages, with times of type `I`.
#[derive(Debug, Clone)]
pub struct GossipContext<I> {
    /// The topic this message was received on.
    pub topic_id: TopicId,
    /// When the message was received.
    pub received_at: I,
    /// The peer that delivered this message (not necessarily the original sender).
    pub delivered_from: EndpointId,
}

/// Request wrapper for gossip messages.
pub struct GossipRequest<T, I, S> {
    message: T,
    context: GossipContext<I>,
    sender: S,
}

impl<T, I, S> GossipRequest<T, I, S> {
    /// The message.
    pub closed spec fn content(self) -> T {
        self.message
    }

    /// The context.
    pub closed spec fn surroundings(self) -> GossipContext<I> {
        self.context
    }

    /// The sender for replies.
    pub closed spec fn outlet(self) -> S {
        self.sender
    }

    /// Create a new gossip request.
    pub fn new(message: T, context: GossipContext<I>, sender: S) -> (r: GossipRequest<T, I, S>)
        ensures
            r.content() == message,
            r.surroundings() == context,
            r.outlet() == sender,
    {
        GossipRequest { message, context, sender }
    }

    /// Consume the request and return the inner message.
    pub fn into_inner(self) -> (r: T)
        ensures
            r == self.content(),
    {
        self.message
    }

    /// Get a reference to the message.
    pub fn get_ref(&self) -> (r: &T)
        ensures
            *r == self.content(),
    {
        &self.message
    }

    /// Get the gossip context.
    pub fn context(&self) -> (r: &GossipContext<I>)
        ensures
            *r == self.surroundings(),
    {
        &self.context
    }

    /// Get the sender for broadcasting replies.
    pub fn sender(&self) -> (r: &S)
        ensures
            *r == self.outlet(),
    {
        &self.sender
    }
}

/// What a subscription gives, with message contents of type `B`.
pub enum GossipEvent<B> {
    /// A message, and the peer that delivered it.
    Received {
        /// The message.
        content: B,
        /// The peer that delivered it.
        delivered_from: EndpointId,
    },
    /// A neighbor came.
    NeighborUp(EndpointId),
    /// A neighbor went.
    NeighborDown(EndpointId),
    /// Messages were lost because they were not read in time.
    Lagged,
}

/// Error type for gossip operations.
#[derive(Debug)]
pub enum GossipError {
    /// Failed to decode protobuf message.
    Decode(String),
    /// Gossip API error.
    Api(String),
}

/// The status codes that gossip errors become.
#[derive(Debug, Clone, Copy, PartialEq, Eq, Structural)]
pub enum GossipStatusCode {
    /// The message was not what was expected.
    InvalidArgument,
    /// Something else went wrong.
    Internal,
}

impl GossipError {
    /// The text that describes the error.
    pub fn message(&self) -> (r: String)
        ensures
            r@ == match *self {
                GossipError::Decode(cause) => "failed to decode message: "@ + cause@,
                GossipError::Api(cause) => "gossip error: "@ + cause@,
            },
    {
        match self {
            GossipError::Decode(cause) => joined_texts(
                "failed to decode message: ",
                cause.as_str(),
            ),
            GossipError::Api(cause) => joined_texts("gossip error: ", cause.as_str()),
        }
    }

    /// The status that the error becomes: its code and its message.
    pub fn to_status(&self) -> (r: (GossipStatusCode, String))
        ensures
            match *self {
                GossipError::Decode(cause) => r.0 is InvalidArgument && r.1@ == "decode error: "@
                    + cause@,
                GossipError::Api(cause) => r.0 is Internal && r.1@ == "gossip error: "@ + cause@,
            },
    {
        match self {
            GossipError::Decode(cause) => (
                GossipStatusCode::InvalidArgument,
                joined_texts("decode error: ", cause.as_str()),
            ),
            GossipError::Api(cause) => (
                GossipStatusCode::Internal,
                joined_texts("gossip error: ", cause.as_str()),
            ),
        }
    }
}

/// What a reader of a topic does with what the subscription gave.
pub enum RecvStep<T, I> {
    /// Hands it out.
    Yield(Result<(GossipContext<I>, T), GossipError>),
    /// Waits for more.
    Skip,
    /// Tells that there is no more.
    End,
}

/// Decide what a reader of a topic does with what the subscription gave at the given time, where a
/// message's content is what decoding made of it. Neighbor events are passed over.
pub fn recv_step<T, I>(
    topic_id: TopicId,
    received_at: I,
    next: Option<Result<GossipEvent<Result<T, String>>, String>>,
) -> (r: RecvStep<T, I>)
    ensures
        r == match next {
            Some(Ok(GossipEvent::Received { content, delivered_from })) => RecvStep::Yield(
                match content {
                    Ok(message) => Ok(
                        (GossipContext { topic_id, received_at, delivered_from }, message),
                    ),
                    Err(cause) => Err(GossipError::Decode(cause)),
                },
            ),
            Some(Ok(_)) => RecvStep::Skip,
            Some(Err(cause)) => RecvStep::Yield(Err(GossipError::Api(cause))),
            None => RecvStep::End,
        },
{
    match next {
        Some(Ok(GossipEvent::Received { content, delivered_from })) => RecvStep::Yield(
            match content {
                Ok(message) => Ok(
                    (GossipContext { topic_id, received_at, delivered_from }, message),
                ),
                Err(cause) => Err(GossipError::Decode(cause)),
            },
        ),
        Some(Ok(GossipEvent::NeighborUp(_))) => RecvStep::Skip,
        Some(Ok(GossipEvent::NeighborDown(_))) => RecvStep::Skip,
        Some(Ok(GossipEvent::Lagged)) => RecvStep::Skip,
        Some(Err(cause)) => RecvStep::Yield(Err(GossipError::Api(cause))),
        None => RecvStep::End,
    }
}

/// What happens to a running gossip handler.
pub enum HandlerEvent<T> {
    /// It is told to stop.
    Shutdown,
    /// Its subscription gave something, or ended.
    Next(Option<Result<GossipEvent<Result<T, String>>, String>>),
}

/// What a gossip handler does.
pub enum HandlerStep<T, I, S> {
    /// Handles the request and goes on.
    Handle(GossipRequest<T, I, S>),
    /// Goes on.
    Skip,
    /// Stops.
    Stop,
}

/// What a handler does is what its event calls for: a message that decodes is handled, one that does
/// not and events about neighbors are passed over, and an error, the end of the subscription or a
/// shutdown stops the handler.
pub open spec fn handler_does<T, I, S>(
    step: HandlerStep<T, I, S>,
    event: HandlerEvent<T>,
    topic_id: TopicId,
    received_at: I,
    sender: S,
) -> bool {
    match event {
        HandlerEvent::Shutdown => step is Stop,
        HandlerEvent::Next(Some(Ok(GossipEvent::Received { content, delivered_from }))) => {
            match content {
                Ok(message) => {
                    &&& step is Handle
                    &&& step->Handle_0.content() == message
                    &&& step->Handle_0.surroundings() == (GossipContext {
                        topic_id,
                        received_at,
                        delivered_from,
                    })
                    &&& step->Handle_0.outlet() == sender
                },
                Err(_) => step is Skip,
            }
        },
        HandlerEvent::Next(Some(Ok(_))) => step is Skip,
        HandlerEvent::Next(Some(Err(_))) => step is Stop,
        HandlerEvent::Next(None) => step is Stop,
    }
}

/// Decide what a gossip handler does at an event, at the given time and with a sender for replies.
pub fn handler_step<T, I, S>(
    event: HandlerEvent<T>,
    topic_id: TopicId,
    received_at: I,
    sender: S,
) -> (r: HandlerStep<T, I, S>)
    ensures
        handler_does(r, event, topic_id, received_at, sender),
{
    match event {
        HandlerEvent::Shutdown => HandlerStep::Stop,
        HandlerEvent::Next(Some(Ok(GossipEvent::Received { content, delivered_from }))) => {
            match content {
                Ok(message) => HandlerStep::Handle(
                    GossipRequest::new(
                        message,
                        GossipContext { topic_id, received_at, delivered_from },
                        sender,
                    ),
                ),
                Err(_) => HandlerStep::Skip,
            }
        },
        HandlerEvent::Next(Some(Ok(GossipEvent::NeighborUp(_)))) => HandlerStep::Skip,
        HandlerEvent::Next(Some(Ok(GossipEvent::NeighborDown(_)))) => HandlerStep::Skip,
        HandlerEvent::Next(Some(Ok(GossipEvent::Lagged))) => HandlerStep::Skip,
        HandlerEvent::Next(Some(Err(_))) => HandlerStep::Stop,
        HandlerEvent::Next(None) => HandlerStep::Stop,
    }
}

/// Configuration for gossip sessions.
#[derive(Debug)]
pub struct GossipConfig {
    /// Bootstrap peers for the gossip network.
    pub bootstrap: Vec<EndpointId>,
}

impl Default for GossipConfig {
    fn default() -> (r: GossipConfig)
        ensures
            r.bootstrap@ == Seq::<EndpointId>::empty(),
    {
        GossipConfig { bootstrap: Vec::new() }
    }
}

/// A handler handles every message that decodes, as it came, goes on past everything else that a
/// subscription gives, and stops exactly at a shutdown, an error and the end.
pub proof fn handler_handles_every_message<T, I, S>(
    step: HandlerStep<T, I, S>,
    event: HandlerEvent<T>,
    topic_id: TopicId,
    received_at: I,
    sender: S,
)
    requires
        handler_does(step, event, topic_id, received_at, sender),
    ensures
        match event {
            HandlerEvent::Next(
                Some(Ok(GossipEvent::Received { content: Ok(message), delivered_from })),
            ) => {
                &&& step is Handle
                &&& step->Handle_0.content() == message
                &&& step->Handle_0.surroundings().delivered_from == delivered_from
                &&& step->Handle_0.surroundings().topic_id == topic_id
                &&& step->Handle_0.surroundings().received_at == received_at
                &&& step->Handle_0.outlet() == sender
            },
            _ => !(step is Handle),
        },
        step is Stop <==> event is Shutdown || event->Next_0 is None || event->Next_0->0 is Err,
{
}

/// The path of a message type is its package and its name with a dot between, and a discriminator
/// follows in hexadecimal behind a slash: two digits for each byte, the higher one first.
pub proof fn message_path_holds_package_and_name(
    package: Seq<char>,
    name: Seq<char>,
    d: Seq<u8>,
    i: int,
)
    requires
        0 <= i < d.len(),
    ensures
        message_path(package, name).take(package.len() as int) == package,
        message_path(package, name)[package.len() as int] == '.',
        message_path(package, name).skip(package.len() as int + 1) == name,
        message_path_with(package, name, d).take(message_path(package, name).len() as int)
            == message_path(package, name),
        message_path_with(package, name, d).len() == message_path(package, name).len() + 1 + 2
            * d.len(),
        hex(d)[2 * i] == hex_char((d[i] / 16) as nat),
        hex(d)[2 * i + 1] == hex_char((d[i] % 16) as nat),
{
    reveal_strlit(".");
    reveal_strlit("/");
    assert(message_path(package, name).take(package.len() as int) =~= package);
    assert(message_path(package, name).skip(package.len() as int + 1) =~= name);
    assert(message_path_with(package, name, d).take(message_path(package, name).len() as int)
        =~= message_path(package, name));
    assert((2 * i) / 2 == i && (2 * i + 1) / 2 == i);
    assert((2 * i) % 2 == 0 && (2 * i + 1) % 2 == 1);
}

} // verus!
