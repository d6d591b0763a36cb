use tonic_iroh_transport::alpn::service_to_alpn;

#[test]
fn test_alpn_generation() {
    assert_eq!(service_to_alpn("test.Service"), b"/test.Service/1.0");
    assert_eq!(service_to_alpn("echo.Echo"), b"/echo.Echo/1.0");
    assert_eq!(
        service_to_alpn("p2p_chat.P2PChatService"),
        b"/p2p_chat.P2PChatService/1.0"
    );
}

#[test]
fn alpn_of_an_empty_and_of_a_non_ascii_name() {
    assert_eq!(service_to_alpn(""), b"//1.0");
    assert_eq!(service_to_alpn("caf\u{e9}"), "/caf\u{e9}/1.0".as_bytes());
}

#[test]
fn alpns_of_different_services_differ() {
    assert_ne!(service_to_alpn("a"), service_to_alpn("a/1.0"));
}
