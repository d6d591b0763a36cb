//! Topic and secret derivation from service ALPN.

use crate::alpn::{service_alpn, service_path, service_to_alpn};
use crate::hash::{sha256, sha256_digest};
use crate::octets::copy_bytes;
use crate::text::{lossy_text, text_of_bytes};
use vstd::prelude::*;
use vstd::utf8::*;

verus! {

/// Derive the topic from the service ALPN (e.g., "/hellas.v1.ExecuteService/1.0"): it is the ALPN
/// as text.
pub fn topic_from_service(service_name: &str) -> (topic: String)
    ensures
        topic@ == service_path(service_name@),
        topic@ == lossy_text(service_alpn(service_name@)),
{
    let alpn = service_to_alpn(service_name);
    topic_from_alpn(alpn.as_slice())
}

/// Derive the topic from raw ALPN bytes.
pub fn topic_from_alpn(alpn: &[u8]) -> (topic: String)
    ensures
        topic@ == lossy_text(alpn@),
        forall|text: Seq<char>| alpn@ == #[trigger] encode_utf8(text) ==> topic@ == text,
{
    text_of_bytes(alpn)
}

/// Derive shared secret from service ALPN (SHA256 hash).
///
/// This is effectively public since anyone can compute it from the service name. The secret is
/// used to encrypt records in the DHT.
pub fn secret_from_service(service_name: &str) -> (secret: Vec<u8>)
    ensures
        secret@ == sha256_digest(service_alpn(service_name@)),
        secret.len() == 32,
{
    let alpn = service_to_alpn(service_name);
    secret_from_alpn(alpn.as_slice())
}

/// Derive shared secret from raw ALPN bytes.
pub fn secret_from_alpn(alpn: &[u8]) -> (secret: Vec<u8>)
    ensures
        secret@ == sha256_digest(alpn@),
        secret.len() == 32,
{
    copy_bytes(&sha256(alpn))
}

} // verus!
