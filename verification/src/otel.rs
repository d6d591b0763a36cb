//! Optional OpenTelemetry trace context propagation for tonic gRPC.
//!
//! Trace context travels in gRPC metadata as W3C `traceparent`/`tracestate` headers. This is what
//! is put into the metadata and what is read from it.

use vstd::prelude::*;
use vstd::string::*;
use vstd::utf8::*;

verus! {

/// The metadata key that the text is a spelling of, if it is one of a key for texts.
pub uninterp spec fn metadata_key(text: Seq<char>) -> Option<Seq<char>>;

/// The byte may stand in a metadata value.
pub open spec fn is_value_byte(b: u8) -> bool {
    32 <= b && b != 127 || b == 9
}

/// The byte is one that a metadata value shows as text.
pub open spec fn is_visible_byte(b: u8) -> bool {
    32 <= b < 127 || b == 9
}

/// Calls `tonic::metadata::MetadataKey::<Ascii>::from_bytes`. Whether the text spells a key, and
/// which, depends on the text alone.
#[verifier::external_body]
fn read_key(text: &str) -> (r: Option<String>)
    ensures
        (match r {
            Some(key) => Some(key@),
            None => None,
        }) == metadata_key(text@),
{
    tonic::metadata::MetadataKey::<tonic::metadata::Ascii>::from_bytes(text.as_bytes())
        .ok()
        .map(|key| key.as_str().to_owned())
}

/// Calls `tonic::metadata::MetadataValue::<Ascii>::try_from` on the text and tells whether it
/// accepts it: control characters other than tab are refused.
#[verifier::external_body]
fn accepts_value(text: &str) -> (r: bool)
    ensures
        r == (forall|i: int|
            0 <= i < encode_utf8(text@).len() ==> is_value_byte(#[trigger] encode_utf8(text@)[i])),
{
    tonic::metadata::MetadataValue::<tonic::metadata::Ascii>::try_from(text).is_ok()
}

/// Calls `tonic::metadata::MetadataValue::<Ascii>::to_str` on the value with these bytes: a value
/// that has only visible characters is shown as it is.
#[verifier::external_body]
fn show_value(bytes: &[u8]) -> (r: Option<String>)
    ensures
        r is Some <==> (forall|i: int|
            0 <= i < bytes@.len() ==> is_visible_byte(#[trigger] bytes@[i])),
        r is Some ==> encode_utf8(r->0@) == bytes@,
{
    let value = tonic::metadata::MetadataValue::<tonic::metadata::Ascii>::try_from(bytes).ok()?;
    value.to_str().ok().map(|text| text.to_owned())
}

/// Client-side interceptor that injects the current OpenTelemetry trace context into outgoing gRPC
/// metadata as W3C `traceparent`/`tracestate` headers.
#[derive(Clone, Copy, Debug)]
pub struct TraceContextInjector;

impl Default for TraceContextInjector {
    fn default() -> (r: TraceContextInjector)
        ensures
            r == TraceContextInjector,
    {
        TraceContextInjector
    }
}

impl TraceContextInjector {
    /// What to put into the metadata for a field of the trace context: the key in its normal form
    /// with the value, or nothing where the key or the value cannot stand in metadata.
    pub fn entry(&self, key: &str, value: String) -> (r: Option<(String, String)>)
        ensures
            r is Some <==> metadata_key(key@) is Some && forall|i: int|
                0 <= i < encode_utf8(value@).len() ==> is_value_byte(
                    #[trigger] encode_utf8(value@)[i],
                ),
            r matches Some((k, v)) ==> Some(k@) == metadata_key(key@) && v == value,
    {
        match read_key(key) {
            Some(normal) => if accepts_value(value.as_str()) {
                Some((normal, value))
            } else {
                None
            },
            None => None,
        }
    }
}

/// Server-side interceptor that extracts W3C trace context from incoming gRPC metadata.
#[derive(Clone, Copy, Debug)]
pub struct TraceContextExtractor;

impl Default for TraceContextExtractor {
    fn default() -> (r: TraceContextExtractor)
        ensures
            r == TraceContextExtractor,
    {
        TraceContextExtractor
    }
}

impl TraceContextExtractor {
    /// The value of a field of the trace context, as found in the metadata: the text that was put
    /// there, or nothing where the field is missing or is not visible text.
    pub fn value(&self, found: Option<&[u8]>) -> (r: Option<String>)
        ensures
            r is Some <==> found is Some && forall|i: int|
                0 <= i < found->0@.len() ==> is_visible_byte(#[trigger] found->0@[i]),
            r matches Some(text) ==> encode_utf8(text@) == found->0@,
            forall|put: Seq<char>|
                r is Some && found->0@ == #[trigger] encode_utf8(put) ==> r->0@ == put,
    {
        proof {
            assert forall|a: Seq<char>, b: Seq<char>| #[trigger] encode_utf8(a) == #[trigger] encode_utf8(
                b,
            ) implies a == b by {
                encode_utf8_decode_utf8(a);
                encode_utf8_decode_utf8(b);
            }
        }
        match found {
            Some(bytes) => show_value(bytes),
            None => None,
        }
    }
}

} // verus!
