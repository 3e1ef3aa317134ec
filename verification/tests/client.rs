use hassctl::client::{
    parse_u16, service_call_body, service_call_path, Client, ClientError, VarLookup, DEFAULT_PORT,
};

fn present(s: &str) -> VarLookup {
    VarLookup::Present(s.to_string())
}

#[test]
fn setup_resolves_all_variables() {
    let r = Client::setup(present("token"), VarLookup::Absent, present("hass.local"), present("8080"));
    let c = r.expect("setup should succeed");
    assert_eq!(c.access_token, "token".to_string());
    assert_eq!(c.host, "hass.local".to_string());
    assert_eq!(c.port, 8080);
}

#[test]
fn setup_port_defaults_when_absent() {
    let r = Client::setup(present("token"), VarLookup::Absent, present("hass.local"), VarLookup::Absent);
    let c = r.expect("setup should succeed");
    assert_eq!(c.port, DEFAULT_PORT);
    assert_eq!(c.port, 8123);
}

#[test]
fn setup_token_falls_back_to_dotfile() {
    let r = Client::setup(VarLookup::Absent, present("filetoken"), present("h"), VarLookup::Absent);
    let c = r.expect("setup should succeed");
    assert_eq!(c.access_token, "filetoken".to_string());
}

#[test]
fn setup_missing_token_when_neither_source_has_one() {
    let r = Client::setup(VarLookup::Absent, VarLookup::Absent, present("h"), VarLookup::Absent);
    assert!(matches!(r, Err(ClientError::MissingAccessToken)));
    let r = Client::setup(VarLookup::Absent, VarLookup::Invalid, present("h"), VarLookup::Absent);
    assert!(matches!(r, Err(ClientError::MissingAccessToken)));
}

#[test]
fn setup_invalid_token_from_environment() {
    let r = Client::setup(VarLookup::Invalid, present("filetoken"), present("h"), VarLookup::Absent);
    assert!(matches!(r, Err(ClientError::InvalidAccessToken)));
}

#[test]
fn setup_missing_host_with_token_present() {
    let r = Client::setup(present("token"), VarLookup::Absent, VarLookup::Absent, present("8080"));
    assert!(matches!(r, Err(ClientError::MissingHost)));
}

#[test]
fn setup_invalid_host() {
    let r = Client::setup(present("token"), VarLookup::Absent, VarLookup::Invalid, VarLookup::Absent);
    assert!(matches!(r, Err(ClientError::InvalidHost)));
}

#[test]
fn setup_invalid_port_string() {
    let r = Client::setup(present("token"), VarLookup::Absent, present("h"), present("abc"));
    assert!(matches!(r, Err(ClientError::InvalidPort)));
}

#[test]
fn setup_invalid_port_lookup() {
    let r = Client::setup(present("token"), VarLookup::Absent, present("h"), VarLookup::Invalid);
    assert!(matches!(r, Err(ClientError::InvalidPort)));
}

#[test]
fn setup_token_error_reported_before_host_error() {
    let r = Client::setup(VarLookup::Absent, VarLookup::Absent, VarLookup::Absent, VarLookup::Absent);
    assert!(matches!(r, Err(ClientError::MissingAccessToken)));
}

#[test]
fn parse_u16_accepts_plain_and_signed_decimals() {
    assert_eq!(parse_u16("0"), Some(0));
    assert_eq!(parse_u16("8123"), Some(8123));
    assert_eq!(parse_u16("65535"), Some(65535));
    assert_eq!(parse_u16("+80"), Some(80));
    assert_eq!(parse_u16("007"), Some(7));
}

#[test]
fn parse_u16_rejects_everything_else() {
    assert_eq!(parse_u16(""), None);
    assert_eq!(parse_u16("+"), None);
    assert_eq!(parse_u16("abc"), None);
    assert_eq!(parse_u16(" 5"), None);
    assert_eq!(parse_u16("5 "), None);
    assert_eq!(parse_u16("-1"), None);
    assert_eq!(parse_u16("65536"), None);
    assert_eq!(parse_u16("999999999999999999999999"), None);
}

#[test]
fn error_descriptions() {
    assert_eq!(
        ClientError::InvalidAccessToken.error_description(),
        "Invalid access token!".to_string()
    );
    assert_eq!(ClientError::InvalidHost.error_description(), "Invalid host.".to_string());
    assert_eq!(ClientError::InvalidPort.error_description(), "Invalid port.".to_string());
    assert_eq!(
        ClientError::MissingHost.error_description(),
        "Missing host.\n\nHost must be specified in the environment variable HASSCTL_HOST.\n"
            .to_string()
    );
    let token_msg = ClientError::MissingAccessToken.error_description();
    assert!(token_msg.starts_with("Missing access token\n"));
    assert!(token_msg.contains("HASSCTL_ACCESS_TOKEN"));
}

#[test]
fn build_url_joins_host_port_and_path() {
    let c = Client {
        access_token: "t".to_string(),
        host: "hass.local".to_string(),
        port: 8123,
    };
    assert_eq!(c.build_url("/api/states"), "http://hass.local:8123/api/states".to_string());
    let c = Client { access_token: "t".to_string(), host: "h".to_string(), port: 80 };
    assert_eq!(c.build_url(""), "http://h:80".to_string());
}

#[test]
fn service_path_names_domain_and_service() {
    assert_eq!(
        service_call_path("scene", "turn_on"),
        "/api/services/scene/turn_on".to_string()
    );
}

#[test]
fn service_body_holds_exactly_the_chosen_id() {
    assert_eq!(
        service_call_body("scene.movie_night"),
        "{\"entity_id\":\"scene.movie_night\"}".to_string()
    );
    assert_eq!(service_call_body(""), "{\"entity_id\":\"\"}".to_string());
}

#[test]
fn service_body_escapes_special_characters() {
    assert_eq!(service_call_body("a\"b"), "{\"entity_id\":\"a\\\"b\"}".to_string());
    assert_eq!(service_call_body("a\\b"), "{\"entity_id\":\"a\\\\b\"}".to_string());
    assert_eq!(service_call_body("a\nb"), "{\"entity_id\":\"a\\nb\"}".to_string());
    assert_eq!(service_call_body("a\u{1f}b"), "{\"entity_id\":\"a\\u001fb\"}".to_string());
}
