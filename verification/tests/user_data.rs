use tonic_iroh_transport::error::Error;
use tonic_iroh_transport::user_data::{
    classify_user_data_alpn, encode_alpns, user_data_alpns, user_data_has_alpn,
    user_data_has_service, UserData, UserDataAlpnMatch, USER_DATA_MAX_LENGTH,
};

#[test]
fn classify_user_data_alpn_distinguishes_missing_match_and_mismatch() {
    let user_data = encode_alpns(&[b"/svc.A/1.0".to_vec(), b"/svc.B/1.0".to_vec()])
        .expect("valid user-data");

    assert_eq!(
        classify_user_data_alpn(Some(&user_data), b"/svc.A/1.0"),
        UserDataAlpnMatch::Match
    );
    assert_eq!(
        classify_user_data_alpn(Some(&user_data), b"/svc.C/1.0"),
        UserDataAlpnMatch::Mismatch
    );
    assert_eq!(
        classify_user_data_alpn(None, b"/svc.A/1.0"),
        UserDataAlpnMatch::Missing
    );
}

#[test]
fn encode_decode_round_trips_alpns_without_separator_collisions() {
    let alpns = vec![b"/svc,comma/1.0".to_vec(), b"/svc.dot/1.0".to_vec()];
    let encoded = encode_alpns(&alpns).expect("encoding should succeed");
    assert_eq!(user_data_alpns(&encoded), alpns);
}

#[test]
fn malformed_user_data_decodes_to_empty_set() {
    let user_data =
        UserData::from_text("%%%not-base64%%%".to_string()).expect("under max length");
    assert!(user_data_alpns(&user_data).is_empty());
}

#[test]
fn the_encoding_is_base64_of_postcard() {
    let encoded = encode_alpns(&[b"ab".to_vec(), vec![0xfb, 0xff]]).expect("short enough");
    // 02 | 02 61 62 | 02 fb ff
    assert_eq!(encoded.as_str(), "AgJhYgL7_w");
    let none = encode_alpns(&[]).expect("short enough");
    assert_eq!(none.as_str(), "AA");
    assert!(user_data_alpns(&none).is_empty());
}

#[test]
fn encoding_fails_exactly_above_the_limit() {
    // One list of n bytes takes n + 2 or n + 3 bytes: 183 bytes become 244 symbols, 184 become 246.
    let fits = encode_alpns(&[vec![b'x'; 180]]).expect("fits");
    assert_eq!(fits.as_str().len(), 244);
    assert!(fits.as_str().len() <= USER_DATA_MAX_LENGTH);
    match encode_alpns(&[vec![b'x'; 181]]) {
        Err(Error::AddressLookupMetadata(text)) => {
            assert_eq!(text, "encoded ALPN metadata exceeds 245 bytes")
        }
        other => panic!("expected an error, got {other:?}"),
    }
    match encode_alpns(&[vec![b'x'; 10_000]]) {
        Err(e) => assert_eq!(
            e.message(),
            "Address lookup metadata error: encoded ALPN metadata exceeds 245 bytes"
        ),
        other => panic!("expected an error, got {other:?}"),
    }
}

#[test]
fn services_are_found_in_what_was_announced() {
    let encoded = encode_alpns(&[b"/echo.Echo/1.0".to_vec()]).expect("fits");
    assert!(user_data_has_service(&encoded, "echo.Echo"));
    assert!(!user_data_has_service(&encoded, "echo"));
    assert!(user_data_has_alpn(&encoded, b"/echo.Echo/1.0"));
    assert!(!user_data_has_alpn(&encoded, b"echo.Echo"));
}

#[test]
fn padded_and_non_canonical_base64_is_not_decoded() {
    for text in ["AA==", "AB", "A", "AgJhYgL7/w", "AgJhYgL7_w=", "AgJ hYgL7_w"] {
        let data = UserData::from_text(text.to_string()).expect("short");
        assert!(user_data_alpns(&data).is_empty(), "{text}");
    }
}

#[test]
fn user_data_is_bounded() {
    assert!(UserData::from_text("x".repeat(245)).is_some());
    assert!(UserData::from_text("x".repeat(246)).is_none());
    assert!(UserData::from_text("\u{e9}".repeat(123)).is_none());
    let data = UserData::from_text("hello".to_string()).expect("short");
    assert_eq!(data.clone().as_str(), "hello");
}
