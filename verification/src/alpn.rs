//! ALPN helpers shared by client, server, and discovery modules.

use crate::octets::copy_bytes;
use vstd::prelude::*;
use vstd::string::*;
use vstd::utf8::*;

verus! {

/// The path under which a service is offered: `/name/1.0`.
pub open spec fn service_path(name: Seq<char>) -> Seq<char> {
    "/"@ + name + "/1.0"@
}

/// The ALPN of a service: the bytes of its path.
pub open spec fn service_alpn(name: Seq<char>) -> Seq<u8> {
    encode_utf8(service_path(name))
}

/// Generate ALPN protocol bytes from a tonic service name.
///
/// Converts `echo.Echo` -> `/echo.Echo/1.0`.
/// Converts `p2p_chat.P2PChatService` -> `/p2p_chat.P2PChatService/1.0`.
pub fn service_to_alpn(service_name: &str) -> (alpn: Vec<u8>)
    ensures
        alpn@ == service_alpn(service_name@),
{
    let mut path = String::new();
    path.append("/");
    path.append(service_name);
    path.append("/1.0");
    assert(path@ =~= service_path(service_name@));
    copy_bytes(path.as_str().as_bytes())
}

/// Different services have different ALPNs.
pub proof fn service_alpns_differ(a: Seq<char>, b: Seq<char>)
    requires
        a != b,
    ensures
        service_alpn(a) != service_alpn(b),
{
    if service_alpn(a) == service_alpn(b) {
        encode_utf8_decode_utf8(service_path(a));
        encode_utf8_decode_utf8(service_path(b));
        reveal_strlit("/");
        reveal_strlit("/1.0");
        let pa = service_path(a);
        let pb = service_path(b);
        assert(a =~= pa.subrange(1, pa.len() - 4));
        assert(b =~= pb.subrange(1, pb.len() - 4));
    }
}

/// The path of a service is its name between a slash and its version, and its ALPN is the UTF-8 of
/// that and of nothing else.
pub proof fn service_path_holds_the_name(name: Seq<char>, text: Seq<char>)
    ensures
        service_path(name).len() == name.len() + 5,
        service_path(name)[0] == '/',
        service_path(name).subrange(1, 1 + name.len() as int) == name,
        service_path(name).skip(1 + name.len() as int) == "/1.0"@,
        service_alpn(name) == encode_utf8(text) <==> text == service_path(name),
{
    reveal_strlit("/");
    reveal_strlit("/1.0");
    assert(service_path(name).subrange(1, 1 + name.len() as int) =~= name);
    assert(service_path(name).skip(1 + name.len() as int) =~= "/1.0"@);
    encode_utf8_decode_utf8(service_path(name));
    encode_utf8_decode_utf8(text);
}

} // verus!
