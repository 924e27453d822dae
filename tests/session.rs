use cube_server::events::token_event;
use cube_server::session::{
    exchange, exchange_with_token, issue_code, request_code, AuthError, AuthRequest, CODE_EXPIRES_IN,
};
use cube_server::store::MetadataStore;

fn request(code: &str, username: &str) -> AuthRequest {
    AuthRequest { code: code.to_string(), username: username.to_string() }
}

#[test]
fn requested_code_is_six_alphanumerics() {
    let mut store = MetadataStore::new();
    let r = request_code(&mut store, Some("192.168.1.20".to_string()));
    assert_eq!(r.code.chars().count(), 6);
    assert!(r.code.chars().all(|c| c.is_ascii_alphanumeric()));
    assert_eq!(r.ip, "192.168.1.20");
    assert_eq!(r.expires_in, 60);
    assert_eq!(CODE_EXPIRES_IN, 60);
}

#[test]
fn code_without_address_binds_loopback() {
    let mut store = MetadataStore::new();
    let r = issue_code(&mut store, "ABC123".to_string(), None, "t0".to_string());
    assert_eq!(r.code, "ABC123");
    assert_eq!(r.ip, "127.0.0.1");
    let t = exchange_with_token(&mut store, &request("ABC123", "bob"), "tok".to_string(), "t1".to_string());
    assert_eq!(t.unwrap().token, "tok");
}

#[test]
fn handshake_issues_distinct_tokens() {
    let mut store = MetadataStore::new();
    let code = request_code(&mut store, Some("10.0.0.2".to_string())).code;
    let first = exchange(&mut store, &request(&code, "bob")).expect("first exchange");
    assert_eq!(first.token.len(), 36);
    let wrong = exchange(&mut store, &request("WRONGCODE", "bob"));
    assert_eq!(wrong.unwrap_err(), AuthError::InvalidCode);
    let second = exchange(&mut store, &request(&code, "carol")).expect("second exchange");
    assert_ne!(first.token, second.token);
}

#[test]
fn exchange_of_unknown_code_fails() {
    let mut store = MetadataStore::new();
    let r = exchange_with_token(&mut store, &request("NOPE", "bob"), "t".to_string(), "now".to_string());
    assert_eq!(r.unwrap_err(), AuthError::InvalidCode);
}

#[test]
fn reused_token_is_refused() {
    let mut store = MetadataStore::new();
    issue_code(&mut store, "C0DE42".to_string(), None, "t0".to_string());
    let a = exchange_with_token(&mut store, &request("C0DE42", "bob"), "same".to_string(), "t1".to_string());
    assert!(a.is_ok());
    let b = exchange_with_token(&mut store, &request("C0DE42", "carol"), "same".to_string(), "t2".to_string());
    assert_eq!(b.unwrap_err(), AuthError::TokenCollision);
    let c = exchange_with_token(&mut store, &request("C0DE42", "carol"), "other".to_string(), "t3".to_string());
    assert_eq!(c.unwrap().token, "other");
}

#[test]
fn reissued_code_replaces_its_address() {
    let mut store = MetadataStore::new();
    issue_code(&mut store, "SAME01".to_string(), Some("1.1.1.1".to_string()), "t0".to_string());
    issue_code(&mut store, "SAME01".to_string(), Some("2.2.2.2".to_string()), "t1".to_string());
    assert_eq!(store.code_address(&"SAME01".to_string()), Some("2.2.2.2".to_string()));
}

#[test]
fn token_event_text() {
    assert_eq!(token_event("abc"), r#"{"token":"abc"}"#);
}

#[test]
fn generated_codes_have_requested_length() {
    assert_eq!(cube_server::ids::generate_code(0), "");
    let code = cube_server::ids::generate_code(12);
    assert_eq!(code.len(), 12);
    assert!(code.chars().all(|c| c.is_ascii_alphanumeric()));
}
