//! Node identities: Ed25519 secret keys, the endpoint ids that they give, and signatures.

use crate::octets::same_bytes;
use vstd::prelude::*;

verus! {

/// The 32 bytes are the encoding of a point that is accepted as an endpoint id.
pub uninterp spec fn is_endpoint_key(bytes: Seq<u8>) -> bool;

/// The public key that belongs to a secret key.
pub uninterp spec fn public_key(secret: Seq<u8>) -> Seq<u8>;

/// The Ed25519 signature of a message under a secret key.
pub uninterp spec fn signature_of(secret: Seq<u8>, message: Seq<u8>) -> Seq<u8>;

/// The signature of the message is valid under the public key.
pub uninterp spec fn signature_verifies(
    key: Seq<u8>,
    message: Seq<u8>,
    signature: Seq<u8>,
) -> bool;

/// The public key under which the DHT stores what the signing key with this seed signs.
pub uninterp spec fn dht_public_key(seed: Seq<u8>) -> Seq<u8>;

/// The signature under which the DHT stores a value with a sequence number and a salt, by the
/// signing key with this seed.
pub uninterp spec fn item_signature(
    seed: Seq<u8>,
    value: Seq<u8>,
    seq: i64,
    salt: Seq<u8>,
) -> Seq<u8>;

/// Calls `iroh::PublicKey::from_bytes` and tells whether it accepts the bytes. Whether it does
/// depends on the bytes alone.
#[verifier::external_body]
fn accepts_endpoint_key(bytes: &[u8; 32]) -> (r: bool)
    ensures
        r == is_endpoint_key(bytes@),
{
    iroh::PublicKey::from_bytes(bytes).is_ok()
}

/// Calls `iroh::SecretKey::public`. The public key depends on the secret bytes alone, and bytes
/// that a public key hands out are accepted when they are read back.
#[verifier::external_body]
fn derive_public_key(secret: &[u8; 32]) -> (r: [u8; 32])
    ensures
        r@ == public_key(secret@),
        is_endpoint_key(r@),
{
    *iroh::SecretKey::from_bytes(secret).public().as_bytes()
}

/// Calls `iroh::SecretKey::sign`. Ed25519 signing is deterministic, and what a secret key signs
/// verifies under its public key.
#[verifier::external_body]
fn sign_message(secret: &[u8; 32], message: &[u8]) -> (r: [u8; 64])
    ensures
        r@ == signature_of(secret@, message@),
        signature_verifies(public_key(secret@), message@, r@),
{
    iroh::SecretKey::from_bytes(secret).sign(message).to_bytes()
}

/// Calls `iroh::PublicKey::verify` on the key with these bytes. The outcome depends on the key,
/// the message and the signature alone.
#[verifier::external_body]
fn check_signature(key: &[u8; 32], message: &[u8], signature: &[u8; 64]) -> (r: bool)
    requires
        is_endpoint_key(key@),
    ensures
        r == signature_verifies(key@, message@, signature@),
{
    let signature = iroh::Signature::from_bytes(signature);
    iroh::PublicKey::from_bytes(key).unwrap().verify(message, &signature).is_ok()
}

/// Calls `verifying_key` of the `mainline::SigningKey` with this seed. The key depends on the
/// seed alone.
#[verifier::external_body]
pub(crate) fn derive_dht_public_key(seed: &[u8; 32]) -> (r: [u8; 32])
    ensures
        r@ == dht_public_key(seed@),
{
    *mainline::SigningKey::from_bytes(seed).verifying_key().as_bytes()
}

/// Calls `mainline::MutableItem::new` and takes the item's signature. Ed25519 signing is
/// deterministic, so that it depends on the arguments alone.
#[verifier::external_body]
pub(crate) fn sign_item(seed: &[u8; 32], value: &[u8], seq: i64, salt: &[u8]) -> (r: [u8; 64])
    ensures
        r@ == item_signature(seed@, value@, seq, salt@),
{
    let signer = mainline::SigningKey::from_bytes(seed);
    *mainline::MutableItem::new(signer, value, seq, Some(salt)).signature()
}

/// The identity of a peer: the bytes of a public key that has been checked to be one.
#[derive(Debug, Clone, Copy, PartialEq, Eq, Hash)]
pub struct EndpointId {
    bytes: [u8; 32],
}

impl View for EndpointId {
    type V = Seq<u8>;

    closed spec fn view(&self) -> Seq<u8> {
        self.bytes@
    }
}

impl EndpointId {
    #[verifier::type_invariant]
    spec fn is_checked(self) -> bool {
        is_endpoint_key(self.bytes@)
    }

    /// The endpoint id with these bytes, if they are those of a public key.
    pub fn from_bytes(bytes: &[u8; 32]) -> (r: Option<EndpointId>)
        ensures
            r is Some <==> is_endpoint_key(bytes@),
            r matches Some(id) ==> id@ == bytes@,
    {
        if accepts_endpoint_key(bytes) {
            Some(EndpointId { bytes: *bytes })
        } else {
            None
        }
    }

    /// The bytes of the public key.
    pub fn as_bytes(&self) -> (r: &[u8; 32])
        ensures
            r@ == self@,
            is_endpoint_key(r@),
    {
        proof {
            use_type_invariant(&*self);
        }
        &self.bytes
    }

    /// Whether both are the same id.
    pub fn same(&self, other: &EndpointId) -> (r: bool)
        ensures
            r == (self@ == other@),
    {
        same_bytes(&self.bytes, &other.bytes)
    }

    /// Whether the signature of the message is valid under this id's key.
    pub fn verify(&self, message: &[u8], signature: &[u8; 64]) -> (r: bool)
        ensures
            r == signature_verifies(self@, message@, signature@),
    {
        proof {
            use_type_invariant(&*self);
        }
        check_signature(&self.bytes, message, signature)
    }
}

/// A node's secret key.
#[derive(Clone, Copy)]
pub struct SecretKey {
    bytes: [u8; 32],
}

impl View for SecretKey {
    type V = Seq<u8>;

    closed spec fn view(&self) -> Seq<u8> {
        self.bytes@
    }
}

impl SecretKey {
    /// The secret key with these bytes.
    pub fn from_bytes(bytes: &[u8; 32]) -> (r: SecretKey)
        ensures
            r@ == bytes@,
    {
        SecretKey { bytes: *bytes }
    }

    /// The bytes of the secret key.
    pub fn to_bytes(&self) -> (r: [u8; 32])
        ensures
            r@ == self@,
    {
        self.bytes
    }

    /// The endpoint id of the node that holds this key.
    pub fn public(&self) -> (r: EndpointId)
        ensures
            r@ == public_key(self@),
            is_endpoint_key(r@),
    {
        EndpointId { bytes: derive_public_key(&self.bytes) }
    }

    /// Signs the message. The signature is valid under this key's endpoint id.
    pub fn sign(&self, message: &[u8]) -> (r: [u8; 64])
        ensures
            r@ == signature_of(self@, message@),
            signature_verifies(public_key(self@), message@, r@),
    {
        sign_message(&self.bytes, message)
    }
}

} // verus!
