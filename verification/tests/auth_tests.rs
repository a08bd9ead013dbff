use base64::Engine;
use jsonwebtoken::DecodingKey;
use s3_nix_channel::auth::{
    authorize_request, decision_for_verification, extract_auth_password, password_of_credentials,
    AuthOutcome,
};

fn basic_header(credentials: &str) -> String {
    let encoded = base64::engine::general_purpose::STANDARD.encode(credentials);
    format!("Basic {encoded}")
}

#[test]
fn extracts_the_basic_password() {
    let header = basic_header("user:secret");
    assert_eq!(extract_auth_password(&header).unwrap(), "secret");
}

#[test]
fn password_is_everything_after_the_first_colon() {
    assert_eq!(password_of_credentials("u:p:q").unwrap(), "p:q");
    assert_eq!(password_of_credentials("u:").unwrap(), "");
    assert!(password_of_credentials("no-colon").is_none());
}

#[test]
fn extraction_fails_without_basic_framing() {
    assert!(extract_auth_password("Bearer abc").is_none());
    assert!(extract_auth_password("").is_none());
}

#[test]
fn extraction_fails_on_bad_base64_or_missing_colon() {
    assert!(extract_auth_password("Basic !!!not-base64!!!").is_none());
    let no_colon = basic_header("nocolonhere");
    assert!(extract_auth_password(&no_colon).is_none());
}

#[test]
fn open_service_passes_everything_through() {
    assert_eq!(authorize_request(None, None), AuthOutcome::Allow);
    assert_eq!(authorize_request(None, Some("garbage")), AuthOutcome::Allow);
    let header = basic_header("user:whatever");
    assert_eq!(authorize_request(None, Some(&header)), AuthOutcome::Allow);
}

#[test]
fn configured_key_denies_bad_tokens_uniformly() {
    let key = DecodingKey::from_secret(b"test-key");

    // No header at all.
    assert_eq!(authorize_request(Some(&key), None), AuthOutcome::Deny);
    // A header without extractable credentials.
    assert_eq!(
        authorize_request(Some(&key), Some("Bearer x")),
        AuthOutcome::Deny
    );
    // Tampered tokens of different shapes: the outcome is one and the
    // same denial, whatever the tamper type.
    let garbage = basic_header("user:not-a-jwt");
    let truncated = basic_header("user:eyJhbGciOiJSUzI1NiJ9.e30");
    let a = authorize_request(Some(&key), Some(&garbage));
    let b = authorize_request(Some(&key), Some(&truncated));
    assert_eq!(a, AuthOutcome::Deny);
    assert_eq!(b, AuthOutcome::Deny);
    assert_eq!(a, b);
}

#[test]
fn verification_outcome_maps_to_the_verdict() {
    assert_eq!(decision_for_verification(true), AuthOutcome::Allow);
    assert_eq!(decision_for_verification(false), AuthOutcome::Deny);
}
