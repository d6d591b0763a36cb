//! Helpers for encoding and matching service ALPN data in iroh user-data records.

use crate::alpn::service_to_alpn;
use crate::error::Error;
use crate::octets::{byte_lists, holds_bytes};
use crate::wire::{decode_byte_lists, encode_byte_lists};
use vstd::prelude::*;
use vstd::string::*;
use vstd::utf8::*;

verus! {

/// The most bytes that user data may hold.
pub const USER_DATA_MAX_LENGTH: usize = 245;

/// The symbol of a six-bit value in the URL-safe base64 alphabet.
pub open spec fn base64_symbol(v: int) -> char {
    if v < 26 {
        (65 + v) as char
    } else if v < 52 {
        (71 + v) as char
    } else if v < 62 {
        (v - 4) as char
    } else if v == 62 {
        '-'
    } else {
        '_'
    }
}

/// The byte at the index, or zero behind the end.
pub open spec fn byte_or_zero(bytes: Seq<u8>, i: int) -> int {
    if i < bytes.len() {
        bytes[i] as int
    } else {
        0
    }
}

/// The six-bit value at the index: three bytes give four of them, highest bits first.
pub open spec fn sextet(bytes: Seq<u8>, i: int) -> int {
    let k = 3 * (i / 4);
    if i % 4 == 0 {
        byte_or_zero(bytes, k) / 4
    } else if i % 4 == 1 {
        (byte_or_zero(bytes, k) % 4) * 16 + byte_or_zero(bytes, k + 1) / 16
    } else if i % 4 == 2 {
        (byte_or_zero(bytes, k + 1) % 16) * 4 + byte_or_zero(bytes, k + 2) / 64
    } else {
        byte_or_zero(bytes, k + 2) % 64
    }
}

/// URL-safe base64 without padding.
pub open spec fn base64url(bytes: Seq<u8>) -> Seq<char> {
    Seq::new((4 * bytes.len() + 2) / 3, |i: int| base64_symbol(sextet(bytes, i)))
}

/// The bytes whose base64 the text is, if there are any.
pub open spec fn base64url_bytes(text: Seq<char>) -> Option<Seq<u8>> {
    if exists|bytes: Seq<u8>| #[trigger] base64url(bytes) == text {
        Some(choose|bytes: Seq<u8>| #[trigger] base64url(bytes) == text)
    } else {
        None
    }
}

/// The text that announces a list of ALPNs.
pub open spec fn alpns_text(alpns: Seq<Seq<u8>>) -> Seq<char> {
    base64url(crate::wire::byte_lists_wire(alpns))
}

/// The ALPNs that a text announces: none where it does not decode.
pub open spec fn alpns_in(text: Seq<char>) -> Seq<Seq<u8>> {
    match base64url_bytes(text) {
        Some(bytes) => match crate::wire::byte_lists_read(bytes) {
            Some(alpns) => alpns,
            None => Seq::empty(),
        },
        None => Seq::empty(),
    }
}

/// The decoding error of data-encoding.
#[verifier::external_type_specification]
#[verifier::external_body]
pub struct ExDecodeError(data_encoding::DecodeError);

/// Calls `data_encoding::BASE64URL_NOPAD.encode`: URL-safe base64 without padding. It may panic on
/// more than `usize::MAX / 512` bytes.
#[verifier::external_body]
fn base64url_encode(bytes: &[u8]) -> (r: String)
    requires
        bytes@.len() <= usize::MAX / 512,
    ensures
        r@ == base64url(bytes@),
{
    data_encoding::BASE64URL_NOPAD.encode(bytes)
}

/// Calls `data_encoding::BASE64URL_NOPAD.decode`. The encoding has no padding and ignores no
/// symbol, and its trailing bits are checked, so that it accepts exactly what encoding gives. It
/// may panic on more than `usize::MAX / 8` bytes.
#[verifier::external_body]
fn base64url_decode(text: &str) -> (r: Result<Vec<u8>, data_encoding::DecodeError>)
    requires
        text.spec_bytes().len() <= usize::MAX / 8,
    ensures
        r is Ok ==> base64url(r->Ok_0@) == text@,
        r is Err ==> forall|bytes: Seq<u8>| #[trigger] base64url(bytes) != text@,
{
    data_encoding::BASE64URL_NOPAD.decode(text.as_bytes())
}

proof fn lemma_sextet_range(bytes: Seq<u8>, i: int)
    requires
        0 <= i,
    ensures
        0 <= sextet(bytes, i) < 64,
{
}

proof fn lemma_symbol_injective(a: int, b: int)
    requires
        0 <= a < 64,
        0 <= b < 64,
        base64_symbol(a) == base64_symbol(b),
    ensures
        a == b,
{
    assert('-' as int == 45);
    assert('_' as int == 95);
    assert(base64_symbol(a) as int == base64_symbol(b) as int);
}

/// Different bytes have different base64 texts.
pub proof fn lemma_base64url_injective(a: Seq<u8>, b: Seq<u8>)
    requires
        base64url(a) == base64url(b),
    ensures
        a == b,
{
    let ta = base64url(a);
    let tb = base64url(b);
    assert(ta.len() == tb.len());
    assert(a.len() == b.len());
    assert forall|i: int| 0 <= i < ta.len() implies sextet(a, i) == sextet(b, i) by {
        assert(ta[i] == tb[i]);
        lemma_sextet_range(a, i);
        lemma_sextet_range(b, i);
        lemma_symbol_injective(sextet(a, i), sextet(b, i));
    }
    assert forall|j: int| 0 <= j < a.len() implies a[j] == b[j] by {
        let q = j / 3;
        let i = 4 * q;
        assert(i % 4 == 0 && (i + 1) % 4 == 1 && (i + 2) % 4 == 2 && (i + 3) % 4 == 3);
        assert(i / 4 == q && (i + 1) / 4 == q && (i + 2) / 4 == q && (i + 3) / 4 == q);
        if j % 3 == 0 {
            assert(i + 1 < ta.len());
            assert(sextet(a, i) == sextet(b, i));
            assert(sextet(a, i + 1) == sextet(b, i + 1));
        } else if j % 3 == 1 {
            assert(i + 2 < ta.len());
            assert(sextet(a, i + 1) == sextet(b, i + 1));
            assert(sextet(a, i + 2) == sextet(b, i + 2));
        } else {
            assert(i + 3 < ta.len());
            assert(sextet(a, i + 2) == sextet(b, i + 2));
            assert(sextet(a, i + 3) == sextet(b, i + 3));
        }
    }
    assert(a =~= b);
}

proof fn lemma_base64url_ascii(bytes: Seq<u8>)
    ensures
        is_ascii_chars(base64url(bytes)),
        encode_utf8(base64url(bytes)).len() == base64url(bytes).len(),
{
    assert forall|i: int| 0 <= i < base64url(bytes).len() implies '\0' <= #[trigger] base64url(bytes)[i]
        <= '\u{7f}' by {
        lemma_sextet_range(bytes, i);
        assert('-' as int == 45);
        assert('_' as int == 95);
    }
    is_ascii_chars_encode_utf8(base64url(bytes));
}

/// User-defined data that travels with a node's addresses: a text of bounded size.
#[derive(Debug, PartialEq, Eq)]
pub struct UserData {
    text: String,
}

impl Clone for UserData {
    fn clone(&self) -> (r: UserData)
        ensures
            r@ == self@,
    {
        proof {
            use_type_invariant(&*self);
        }
        UserData { text: self.text.clone() }
    }
}

impl View for UserData {
    type V = Seq<char>;

    closed spec fn view(&self) -> Seq<char> {
        self.text@
    }
}

impl UserData {
    #[verifier::type_invariant]
    spec fn is_bounded(self) -> bool {
        encode_utf8(self.text@).len() <= USER_DATA_MAX_LENGTH
    }

    /// The text as user data, if it is short enough.
    pub fn from_text(text: String) -> (r: Option<UserData>)
        ensures
            r is Some <==> encode_utf8(text@).len() <= USER_DATA_MAX_LENGTH,
            r matches Some(data) ==> data@ == text@,
    {
        let len = text_len(text.as_str());
        if len <= USER_DATA_MAX_LENGTH {
            Some(UserData { text })
        } else {
            None
        }
    }

    /// The text of the user data.
    pub fn as_str(&self) -> (r: &str)
        ensures
            r@ == self@,
            encode_utf8(r@).len() <= USER_DATA_MAX_LENGTH,
    {
        proof {
            use_type_invariant(&*self);
        }
        self.text.as_str()
    }
}

/// How many bytes the text takes.
fn text_len(text: &str) -> (r: usize)
    ensures
        r == encode_utf8(text@).len(),
{
    text.as_bytes().len()
}

/// Classification for service-scoped discovery against published user-data.
#[derive(Debug, Clone, Copy, PartialEq, Eq)]
pub enum UserDataAlpnMatch {
    /// The published metadata contains the required ALPN.
    Match,
    /// The published metadata is present but does not contain the ALPN.
    Mismatch,
    /// No service metadata was published.
    Missing,
}

/// What published user data says of an ALPN.
pub open spec fn alpn_match(user_data: Option<Seq<char>>, alpn: Seq<u8>) -> UserDataAlpnMatch {
    match user_data {
        Some(text) => if alpns_in(text).contains(alpn) {
            UserDataAlpnMatch::Match
        } else {
            UserDataAlpnMatch::Mismatch
        },
        None => UserDataAlpnMatch::Missing,
    }
}

/// The user data that announces the ALPNs. It fails where the announcement does not fit.
pub fn encode_alpns(alpns: &[Vec<u8>]) -> (r: Result<UserData, Error>)
    ensures
        r is Ok <==> alpns_text(byte_lists(alpns@)).len() <= USER_DATA_MAX_LENGTH,
        r matches Ok(data) ==> data@ == alpns_text(byte_lists(alpns@)),
        r matches Err(e) ==> e is AddressLookupMetadata && e->AddressLookupMetadata_0@
            == "encoded ALPN metadata exceeds 245 bytes"@,
{
    let bytes = match encode_byte_lists(alpns) {
        Some(bytes) => bytes,
        None => {
            return Err(
                Error::address_lookup_metadata(String::from_str("failed to serialize ALPN metadata")),
            );
        },
    };
    if bytes.len() > USER_DATA_MAX_LENGTH {
        return Err(
            Error::address_lookup_metadata(
                String::from_str("encoded ALPN metadata exceeds 245 bytes"),
            ),
        );
    }
    let text = base64url_encode(bytes.as_slice());
    proof {
        lemma_base64url_ascii(bytes@);
    }
    match UserData::from_text(text) {
        Some(data) => Ok(data),
        None => Err(
            Error::address_lookup_metadata(
                String::from_str("encoded ALPN metadata exceeds 245 bytes"),
            ),
        ),
    }
}

fn decode_alpns(user_data: &UserData) -> (alpns: Vec<Vec<u8>>)
    ensures
        byte_lists(alpns@) == alpns_in(user_data@),
        forall|announced: Seq<Seq<u8>>|
            user_data@ == #[trigger] alpns_text(announced) ==> byte_lists(alpns@) == announced,
{
    let decoded = base64url_decode(user_data.as_str());
    match decoded {
        Ok(bytes) => {
            proof {
                let chosen = choose|b: Seq<u8>| #[trigger] base64url(b) == user_data@;
                lemma_base64url_injective(bytes@, chosen);
                assert forall|announced: Seq<Seq<u8>>| user_data@ == #[trigger] alpns_text(
                    announced,
                ) implies bytes@ == crate::wire::byte_lists_wire(announced) by {
                    lemma_base64url_injective(bytes@, crate::wire::byte_lists_wire(announced));
                }
            }
            match decode_byte_lists(bytes.as_slice()) {
                Some(alpns) => alpns,
                None => {
                    let none: Vec<Vec<u8>> = Vec::new();
                    assert(byte_lists(none@) =~= Seq::empty());
                    none
                },
            }
        },
        Err(_) => {
            let none: Vec<Vec<u8>> = Vec::new();
            assert(byte_lists(none@) =~= Seq::empty());
            none
        },
    }
}

/// Classify published user data against a required ALPN.
pub fn classify_user_data_alpn(
    user_data: Option<&UserData>,
    alpn: &[u8],
) -> (r: UserDataAlpnMatch)
    ensures
        r == alpn_match(
            match user_data {
                Some(data) => Some(data@),
                None => None,
            },
            alpn@,
        ),
        user_data is None <==> r is Missing,
        forall|announced: Seq<Seq<u8>>|
            user_data is Some && user_data->0@ == #[trigger] alpns_text(announced) ==> (r is Match
                <==> announced.contains(alpn@)),
{
    match user_data {
        Some(data) => if user_data_has_alpn(data, alpn) {
            UserDataAlpnMatch::Match
        } else {
            UserDataAlpnMatch::Mismatch
        },
        None => UserDataAlpnMatch::Missing,
    }
}

/// Check if `user_data` contains the ALPN for a specific tonic service.
pub fn user_data_has_service(user_data: &UserData, service_name: &str) -> (r: bool)
    ensures
        r == alpns_in(user_data@).contains(crate::alpn::service_alpn(service_name@)),
        forall|announced: Seq<Seq<u8>>|
            user_data@ == #[trigger] alpns_text(announced) ==> r == announced.contains(
                crate::alpn::service_alpn(service_name@),
            ),
{
    let target = service_to_alpn(service_name);
    user_data_has_alpn(user_data, target.as_slice())
}

/// Check if `user_data` contains a specific ALPN.
pub fn user_data_has_alpn(user_data: &UserData, alpn: &[u8]) -> (r: bool)
    ensures
        r == alpns_in(user_data@).contains(alpn@),
        forall|announced: Seq<Seq<u8>>|
            user_data@ == #[trigger] alpns_text(announced) ==> r == announced.contains(alpn@),
{
    let alpns = decode_alpns(user_data);
    holds_bytes(alpns.as_slice(), alpn)
}

/// Get all ALPNs from `user_data`. What was announced is read back as it was.
pub fn user_data_alpns(user_data: &UserData) -> (alpns: Vec<Vec<u8>>)
    ensures
        byte_lists(alpns@) == alpns_in(user_data@),
        forall|announced: Seq<Seq<u8>>|
            user_data@ == #[trigger] alpns_text(announced) ==> byte_lists(alpns@) == announced,
{
    decode_alpns(user_data)
}

/// Different lists of ALPNs are announced by different texts: no ALPN can be taken for two, nor two
/// for one.
pub proof fn announcements_differ(a: Seq<Seq<u8>>, b: Seq<Seq<u8>>)
    requires
        a != b,
    ensures
        alpns_text(a) != alpns_text(b),
{
    let wa = crate::wire::byte_lists_wire(a);
    let wb = crate::wire::byte_lists_wire(b);
    if alpns_text(a) == alpns_text(b) {
        lemma_base64url_injective(wa, wb);
        assert(wa + Seq::<u8>::empty() =~= wa);
        assert(wb + Seq::<u8>::empty() =~= wb);
        crate::wire::lemma_byte_lists_prefix(a, b, Seq::empty(), Seq::empty());
    }
}

} // verus!
