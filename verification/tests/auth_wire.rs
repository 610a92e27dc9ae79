use podcast_server::auth::validate_authentication_data;
use podcast_server::errors::ApiError;
use podcast_server::decimal::parse_u32;
use podcast_server::decimal::u32_to_string;
use podcast_server::send_events::serialize_envelope;
use podcast_server::send_events::EventWrapper;
use podcast_server::send_events::HelloEvent;
use podcast_server::state::App;

#[test]
fn parse_u32_accepts_decimal_numerals() {
    assert_eq!(parse_u32("123"), Some(123));
    assert_eq!(parse_u32("0"), Some(0));
    assert_eq!(parse_u32("+7"), Some(7));
    assert_eq!(parse_u32("4294967295"), Some(4294967295));
}

#[test]
fn parse_u32_rejects_malformed_and_overflowing() {
    assert_eq!(parse_u32(""), None);
    assert_eq!(parse_u32("+"), None);
    assert_eq!(parse_u32("12a"), None);
    assert_eq!(parse_u32("-1"), None);
    assert_eq!(parse_u32(" 1"), None);
    assert_eq!(parse_u32("4294967296"), None);
    assert_eq!(parse_u32("99999999999999999999"), None);
}

#[test]
fn u32_to_string_exact_numerals() {
    assert_eq!(u32_to_string(0), "0");
    assert_eq!(u32_to_string(9), "9");
    assert_eq!(u32_to_string(10), "10");
    assert_eq!(u32_to_string(42000), "42000");
    assert_eq!(u32_to_string(4294967295), "4294967295");
}

#[test]
fn hello_event_wire_shape() {
    let hello = HelloEvent { port: 42000 };
    assert_eq!(hello.event_type(), 1);
    assert_eq!(hello.data_json(), "{\"port\":42000}");
    assert_eq!(
        hello.serialize_event(),
        "{\"event_type\":1,\"data\":{\"port\":42000}}"
    );
}

#[test]
fn envelope_wraps_any_payload() {
    assert_eq!(
        serialize_envelope(7, "{\"x\":2}"),
        "{\"event_type\":7,\"data\":{\"x\":2}}"
    );
    let wrapper = EventWrapper { event_type: 2, data: 5u8 };
    assert_eq!(wrapper.envelope_json("5"), "{\"event_type\":2,\"data\":5}");
}

#[test]
fn validate_missing_headers_unauthorized() {
    let app = App::new();
    let id = "123".to_string();
    let secret = "123".to_string();
    let r = validate_authentication_data(&app.authentication, None, Some(&secret));
    assert!(matches!(r, Err(ApiError::Unauthorized)));
    let r = validate_authentication_data(&app.authentication, Some(&id), None);
    assert!(matches!(r, Err(ApiError::Unauthorized)));
    let r = validate_authentication_data(&app.authentication, None, None);
    assert!(matches!(r, Err(ApiError::Unauthorized)));
}

#[test]
fn validate_malformed_id_unauthorized() {
    let app = App::new();
    let id = "abc".to_string();
    let secret = "123".to_string();
    let r = validate_authentication_data(&app.authentication, Some(&id), Some(&secret));
    assert!(matches!(r, Err(ApiError::Unauthorized)));
}

#[test]
fn validate_unknown_id_unauthorized() {
    let app = App::new();
    let id = "999".to_string();
    let secret = "999".to_string();
    let r = validate_authentication_data(&app.authentication, Some(&id), Some(&secret));
    assert!(matches!(r, Err(ApiError::Unauthorized)));
}

#[test]
fn wrong_secret_always_unauthorized() {
    let app = App::new();
    let known = "123".to_string();
    let unknown = "999".to_string();
    let wrong = "wrong".to_string();
    let r = validate_authentication_data(&app.authentication, Some(&known), Some(&wrong));
    assert!(matches!(r, Err(ApiError::Unauthorized)));
    let r = validate_authentication_data(&app.authentication, Some(&unknown), Some(&wrong));
    assert!(matches!(r, Err(ApiError::Unauthorized)));
}

#[test]
fn validate_correct_credentials_ok() {
    let app = App::new();
    let id = "123".to_string();
    let secret = "123".to_string();
    let auth = validate_authentication_data(&app.authentication, Some(&id), Some(&secret))
        .unwrap();
    assert_eq!(auth.client_id, 123);
    assert_eq!(auth.client_secret, "123");
    let signed = "+345".to_string();
    let secret = "345".to_string();
    let auth = validate_authentication_data(&app.authentication, Some(&signed), Some(&secret))
        .unwrap();
    assert_eq!(auth.client_id, 345);
}

#[test]
fn error_status_codes() {
    assert_eq!(ApiError::Unauthorized.status_code(), 401);
    assert_eq!(ApiError::NotFound.status_code(), 404);
    assert_eq!(ApiError::InactiveSession.status_code(), 400);
    assert_eq!(ApiError::AllPortsInUse.status_code(), 400);
    assert_eq!(ApiError::Exhausted.status_code(), 500);
}
