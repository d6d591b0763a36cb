//! gRPC channel over an HTTP/2 connection: the target of its requests, and the course of request
//! and response bodies.

use crate::error::Error;
use crate::text::joined_texts;
use vstd::prelude::*;
use vstd::string::*;

verus! {

/// Maximum request body size before it is rejected (4 MiB).
///
/// This is a safety limit for the body pump, which sends outbound data without reserving capacity
/// first.
pub const MAX_OUTBOUND_BODY_BYTES: usize = 4194304;

/// The scheme of requests where the origin has none.
pub open spec fn default_scheme() -> Seq<char> {
    "http"@
}

/// The authority of requests where the origin has none.
pub open spec fn default_authority() -> Seq<char> {
    "iroh.local"@
}

/// The parts of a URI.
pub struct UriParts {
    /// The scheme, if there is one.
    pub scheme: Option<String>,
    /// The authority, if there is one.
    pub authority: Option<String>,
    /// The path with the query, if there is one.
    pub path_and_query: Option<String>,
}

/// The parts of a URI, as texts.
pub ghost struct UriView {
    pub scheme: Option<Seq<char>>,
    pub authority: Option<Seq<char>>,
    pub path_and_query: Option<Seq<char>>,
}

/// The text, if there is one.
pub open spec fn optional_text(text: Option<String>) -> Option<Seq<char>> {
    match text {
        Some(t) => Some(t@),
        None => None,
    }
}

impl View for UriParts {
    type V = UriView;

    open spec fn view(&self) -> UriView {
        UriView {
            scheme: optional_text(self.scheme),
            authority: optional_text(self.authority),
            path_and_query: optional_text(self.path_and_query),
        }
    }
}

/// The parts of the URI that the text is, if it is one.
pub uninterp spec fn uri_read(text: Seq<char>) -> Option<UriView>;

/// The text of the URI with these parts, if they make one.
pub uninterp spec fn uri_joined(
    scheme: Seq<char>,
    authority: Seq<char>,
    path_and_query: Seq<char>,
) -> Option<Seq<char>>;

/// Calls `http::Uri::try_from` and `into_parts`. Whether the text is a URI, and of what parts,
/// depends on the text alone.
#[verifier::external_body]
fn read_uri(text: &str) -> (r: Option<UriParts>)
    ensures
        (match r {
            Some(parts) => Some(parts@),
            None => None,
        }) == uri_read(text@),
{
    let parts = http::Uri::try_from(text).ok()?.into_parts();
    Some(
        UriParts {
            scheme: parts.scheme.map(|scheme| scheme.as_str().to_owned()),
            authority: parts.authority.map(|authority| authority.as_str().to_owned()),
            path_and_query: parts.path_and_query.map(|path| path.as_str().to_owned()),
        },
    )
}

/// Calls `http::uri::Builder::build`. Whether the parts make a URI, and its text, depend on the
/// parts alone.
#[verifier::external_body]
fn join_uri(scheme: &str, authority: &str, path_and_query: &str) -> (r: Option<String>)
    ensures
        optional_text(r) == uri_joined(scheme@, authority@, path_and_query@),
{
    let builder = http::Uri::builder().scheme(scheme).authority(authority);
    builder.path_and_query(path_and_query).build().ok().map(|uri| uri.to_string())
}

/// The URI with scheme and authority of the origin, or the defaults where the origin lacks them.
pub open spec fn with_origin(uri: UriView, origin: UriView) -> UriView {
    UriView {
        scheme: Some(
            match origin.scheme {
                Some(scheme) => scheme,
                None => default_scheme(),
            },
        ),
        authority: Some(
            match origin.authority {
                Some(authority) => authority,
                None => default_authority(),
            },
        ),
        path_and_query: uri.path_and_query,
    }
}

fn text_or(text: &Option<String>, default: &str) -> (r: String)
    ensures
        r@ == match *text {
            Some(t) => t@,
            None => default@,
        },
{
    match text {
        Some(t) => t.clone(),
        None => String::from_str(default),
    }
}

/// Always rewrite scheme and authority from `origin`; the path stays.
pub fn apply_origin(uri: UriParts, origin: &UriParts) -> (r: UriParts)
    ensures
        r@ == with_origin(uri@, origin@),
{
    UriParts {
        scheme: Some(text_or(&origin.scheme, "http")),
        authority: Some(text_or(&origin.authority, "iroh.local")),
        path_and_query: uri.path_and_query,
    }
}

/// What a request target becomes under an origin: it needs a path, and both have to be URIs.
pub open spec fn rewritten(uri: Option<UriView>, origin: Option<UriView>) -> Option<Seq<char>> {
    match (uri, origin) {
        (Some(u), Some(o)) => match u.path_and_query {
            Some(path) => {
                let target = with_origin(u, o);
                uri_joined(target.scheme->0, target.authority->0, path)
            },
            None => None,
        },
        _ => None,
    }
}

/// The target of a request, with scheme and authority of the origin. There is none where one of the
/// texts is not a URI or the target has no path.
pub fn rewrite_uri(uri: &str, origin: &str) -> (r: Option<String>)
    ensures
        optional_text(r) == rewritten(uri_read(uri@), uri_read(origin@)),
{
    match (read_uri(uri), read_uri(origin)) {
        (Some(parts), Some(origin_parts)) => join_rewritten(parts, &origin_parts),
        _ => None,
    }
}

/// The text of a request's target, with scheme and authority of the origin.
pub fn join_rewritten(uri: UriParts, origin: &UriParts) -> (r: Option<String>)
    ensures
        optional_text(r) == rewritten(Some(uri@), Some(origin@)),
{
    let target = apply_origin(uri, origin);
    match (target.scheme, target.authority, target.path_and_query) {
        (Some(scheme), Some(authority), Some(path)) => join_uri(
            scheme.as_str(),
            authority.as_str(),
            path.as_str(),
        ),
        _ => None,
    }
}

/// What the request body gives next.
pub enum BodyFrame {
    /// Data of that many bytes.
    Data(usize),
    /// Trailers.
    Trailers,
    /// A frame of another sort.
    Other,
    /// An error, as described.
    Failed(String),
    /// Its end.
    End,
}

/// What the pump does with it.
pub enum PumpStep {
    /// Send the data and go on.
    SendData,
    /// Send the trailers; the request is complete.
    SendTrailers,
    /// Go on.
    Skip,
    /// Send the end of the stream; the request is complete.
    Finish,
    /// Reset the stream and give up, with the error.
    Fail(Error),
}

/// The pump of a request body: how many bytes it has sent.
pub struct BodyPump {
    total_sent: usize,
}

impl View for BodyPump {
    type V = nat;

    closed spec fn view(&self) -> nat {
        self.total_sent as nat
    }
}

impl BodyPump {
    /// Before the first frame.
    pub fn new() -> (r: BodyPump)
        ensures
            r@ == 0,
    {
        BodyPump { total_sent: 0 }
    }

    /// Takes in the next frame of the body. What is sent in all stays within the limit.
    pub fn on_frame(&mut self, frame: BodyFrame) -> (r: PumpStep)
        requires
            old(self)@ <= MAX_OUTBOUND_BODY_BYTES,
        ensures
            final(self)@ <= MAX_OUTBOUND_BODY_BYTES,
            r is Fail <==> frame is Failed || (frame is Data && old(self)@ + frame->Data_0 > 4 * 1024
                * 1024),
            match frame {
                BodyFrame::Data(len) => if old(self)@ + len <= MAX_OUTBOUND_BODY_BYTES {
                    r is SendData && final(self)@ == old(self)@ + len
                } else {
                    &&& r is Fail
                    &&& r->Fail_0 is Connection
                    &&& r->Fail_0->Connection_0@ == "outbound body exceeded 4194304 byte limit"@
                    &&& final(self)@ == old(self)@
                },
                BodyFrame::Trailers => r is SendTrailers && final(self)@ == old(self)@,
                BodyFrame::Other => r is Skip && final(self)@ == old(self)@,
                BodyFrame::Failed(cause) => {
                    &&& r is Fail
                    &&& r->Fail_0 is Connection
                    &&& r->Fail_0->Connection_0@ == "request body error: "@ + cause@
                    &&& final(self)@ == old(self)@
                },
                BodyFrame::End => r is Finish && final(self)@ == old(self)@,
            },
    {
        match frame {
            BodyFrame::Data(len) => {
                if len > MAX_OUTBOUND_BODY_BYTES - self.total_sent {
                    return PumpStep::Fail(
                        Error::connection(
                            String::from_str("outbound body exceeded 4194304 byte limit"),
                        ),
                    );
                }
                self.total_sent = self.total_sent + len;
                PumpStep::SendData
            },
            BodyFrame::Trailers => PumpStep::SendTrailers,
            BodyFrame::Other => PumpStep::Skip,
            BodyFrame::Failed(cause) => PumpStep::Fail(
                Error::connection(joined_texts("request body error: ", cause.as_str())),
            ),
            BodyFrame::End => PumpStep::Finish,
        }
    }
}

/// Where a response body stands.
#[derive(Debug, Clone, Copy, PartialEq, Eq, Structural)]
pub enum BodyPhase {
    /// Receiving DATA frames.
    Data,
    /// DATA exhausted, waiting for optional TRAILERS.
    Trailers,
    /// Terminal state.
    Done,
}

/// What the connection gives while data is received.
pub enum DataEvent {
    /// Data, whose window was given back to the sender.
    Chunk,
    /// Data, whose window could not be given back, for the described cause.
    ChunkUnreleased(String),
    /// An error, as described.
    Failed(String),
    /// The end of the data.
    End,
}

/// What the connection gives while trailers are awaited.
pub enum TrailersEvent {
    /// Trailers.
    Received,
    /// None.
    Absent,
    /// An error, as described.
    Failed(String),
}

/// What a response body yields.
pub enum FrameStep {
    /// The data.
    Data,
    /// The trailers.
    Trailers,
    /// Nothing yet: trailers are awaited now.
    AwaitTrailers,
    /// Its end.
    End,
    /// An internal error with the message.
    Fail(String),
}

/// The state of a response body: data first, then optional trailers, then nothing.
pub struct IrohResponseBody {
    phase: BodyPhase,
}

impl Default for IrohResponseBody {
    /// Returns an empty body.
    fn default() -> (r: IrohResponseBody)
        ensures
            r.stands() is Done,
    {
        IrohResponseBody { phase: BodyPhase::Done }
    }
}

impl IrohResponseBody {
    /// Where the body stands.
    pub closed spec fn stands(self) -> BodyPhase {
        self.phase
    }

    /// The body of a response that just began.
    pub fn new() -> (r: IrohResponseBody)
        ensures
            r.stands() is Data,
    {
        IrohResponseBody { phase: BodyPhase::Data }
    }

    /// Where the body stands.
    pub fn phase(&self) -> (r: BodyPhase)
        ensures
            r == self.stands(),
    {
        self.phase
    }

    /// What the body yields without asking the connection: its end, once it is done, however often
    /// it is asked.
    pub fn at_end(&self) -> (r: Option<FrameStep>)
        ensures
            r == if self.stands() is Done {
                Some(FrameStep::End)
            } else {
                None
            },
    {
        match self.phase {
            BodyPhase::Done => Some(FrameStep::End),
            _ => None,
        }
    }

    /// Takes in what the connection gave while data was received. An error ends the body.
    pub fn on_data(&mut self, event: DataEvent) -> (r: FrameStep)
        requires
            old(self).stands() is Data,
        ensures
            match event {
                DataEvent::Chunk => r is Data && final(self).stands() is Data,
                DataEvent::ChunkUnreleased(cause) => r is Fail && r->Fail_0@
                    == "flow control error: "@ + cause@ && final(self).stands() is Done,
                DataEvent::Failed(cause) => r is Fail && r->Fail_0@ == "h2 data error: "@ + cause@
                    && final(self).stands() is Done,
                DataEvent::End => r is AwaitTrailers && final(self).stands() is Trailers,
            },
    {
        match event {
            DataEvent::Chunk => FrameStep::Data,
            DataEvent::ChunkUnreleased(cause) => {
                self.phase = BodyPhase::Done;
                FrameStep::Fail(joined_texts("flow control error: ", cause.as_str()))
            },
            DataEvent::Failed(cause) => {
                self.phase = BodyPhase::Done;
                FrameStep::Fail(joined_texts("h2 data error: ", cause.as_str()))
            },
            DataEvent::End => {
                self.phase = BodyPhase::Trailers;
                FrameStep::AwaitTrailers
            },
        }
    }

    /// Takes in what the connection gave while trailers were awaited. Whatever it is ends the body.
    pub fn on_trailers(&mut self, event: TrailersEvent) -> (r: FrameStep)
        requires
            old(self).stands() is Trailers,
        ensures
            final(self).stands() is Done,
            match event {
                TrailersEvent::Received => r is Trailers,
                TrailersEvent::Absent => r is End,
                TrailersEvent::Failed(cause) => r is Fail && r->Fail_0@ == "h2 trailers error: "@
                    + cause@,
            },
    {
        self.phase = BodyPhase::Done;
        match event {
            TrailersEvent::Received => FrameStep::Trailers,
            TrailersEvent::Absent => FrameStep::End,
            TrailersEvent::Failed(cause) => FrameStep::Fail(
                joined_texts("h2 trailers error: ", cause.as_str()),
            ),
        }
    }
}

/// Under an origin a target keeps its path, and has the origin's scheme and authority, whatever its
/// own were; what the origin lacks is `http` and `iroh.local`.
pub proof fn origin_replaces_all_but_the_path(uri: UriView, other: UriView, origin: UriView)
    ensures
        with_origin(uri, origin).path_and_query == uri.path_and_query,
        with_origin(uri, origin).scheme is Some,
        with_origin(uri, origin).authority is Some,
        origin.scheme is Some ==> with_origin(uri, origin).scheme == origin.scheme,
        origin.authority is Some ==> with_origin(uri, origin).authority == origin.authority,
        origin.scheme is None ==> with_origin(uri, origin).scheme == Some("http"@),
        origin.authority is None ==> with_origin(uri, origin).authority == Some("iroh.local"@),
        other.path_and_query == uri.path_and_query ==> with_origin(other, origin) == with_origin(
            uri,
            origin,
        ),
        with_origin(with_origin(uri, other), origin) == with_origin(uri, origin),
        uri.path_and_query is None ==> rewritten(Some(uri), Some(origin)) is None,
        rewritten(None, Some(origin)) is None,
        rewritten(Some(uri), None) is None,
        uri.path_and_query is Some && origin.scheme is None && origin.authority is None ==> rewritten(
            Some(uri),
            Some(origin),
        ) == uri_joined("http"@, "iroh.local"@, uri.path_and_query->0),
        uri.path_and_query is Some && origin.scheme is Some && origin.authority is Some ==> rewritten(
            Some(uri),
            Some(origin),
        ) == uri_joined(origin.scheme->0, origin.authority->0, uri.path_and_query->0),
{
}

} // verus!
