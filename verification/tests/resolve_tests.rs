use s3_nix_channel::errors::RequestError;
use s3_nix_channel::persistent::config_from_documents;
use s3_nix_channel::resolve::{resolve_channel, resolve_permanent};

fn one_channel_config(name: &str, latest: &str) -> s3_nix_channel::persistent::ChannelsConfig {
    let text = format!("{{\"latest\":\"{latest}\"}}");
    config_from_documents(&vec![(name.to_string(), Some(text))])
}

#[test]
fn channel_redirect_targets_latest_artifact() {
    let cfg = one_channel_config("foo", "v7");
    let red = resolve_channel(&cfg, "https://example.com", "foo.tar.xz").unwrap();
    assert_eq!(red.object_key, "v7.tar.xz");
    assert_eq!(
        red.link_header,
        "<https://example.com/permanent/v7.tar.xz>; rel=\"immutable\""
    );
}

#[test]
fn channel_request_without_suffix_is_rejected() {
    let cfg = one_channel_config("foo", "v7");
    match resolve_channel(&cfg, "https://example.com", "foo") {
        Err(RequestError::InvalidFile { file_name }) => {
            assert_eq!(file_name, "foo");
        }
        other => panic!("expected an invalid-file error, got {:?}", other.is_ok()),
    }
}

#[test]
fn unknown_channel_is_rejected_by_name() {
    let cfg = one_channel_config("foo", "v7");
    match resolve_channel(&cfg, "https://example.com", "bar.tar.xz") {
        Err(RequestError::NoSuchChannel { channel_name }) => {
            assert_eq!(channel_name, "bar");
        }
        other => panic!("expected a no-such-channel error, got {:?}", other.is_ok()),
    }
}

#[test]
fn permanent_request_passes_the_key_through() {
    assert_eq!(resolve_permanent("abc123.tar.xz").unwrap(), "abc123.tar.xz");
}

#[test]
fn permanent_request_without_suffix_is_rejected() {
    match resolve_permanent("abc123.zip") {
        Err(RequestError::InvalidFile { file_name }) => {
            assert_eq!(file_name, "abc123.zip");
        }
        other => panic!("expected an invalid-file error, got {:?}", other.is_ok()),
    }
}

#[test]
fn resolution_uses_one_snapshot_whole() {
    let old_cfg = one_channel_config("foo", "v1");
    let new_cfg = one_channel_config("foo", "v2");
    let old_latest = old_cfg.channel("foo").unwrap().latest;
    let new_latest = new_cfg.channel("foo").unwrap().latest;

    // A resolution that started before the swap used the old snapshot
    // whole; one that started after used the new one whole. Either way
    // the key is that snapshot's own latest, never a mixture.
    let before = resolve_channel(&old_cfg, "https://b", "foo.tar.xz").unwrap();
    let after = resolve_channel(&new_cfg, "https://b", "foo.tar.xz").unwrap();
    assert_eq!(before.object_key, format!("{old_latest}.tar.xz"));
    assert_eq!(after.object_key, format!("{new_latest}.tar.xz"));
    let keys = [before.object_key.as_str(), after.object_key.as_str()];
    for key in keys {
        assert!(
            key == format!("{old_latest}.tar.xz") || key == format!("{new_latest}.tar.xz")
        );
    }
}

#[test]
fn request_errors_map_to_stable_statuses() {
    let not_found = RequestError::InvalidFile { file_name: "x".to_string() };
    assert_eq!(not_found.status_code(), 404);
    let missing = RequestError::NoSuchChannel { channel_name: "c".to_string() };
    assert_eq!(missing.status_code(), 404);
    assert_eq!(RequestError::PresignConfigFailure.status_code(), 500);
    let presign = RequestError::PresignFailure { object_key: "k".to_string() };
    assert_eq!(presign.status_code(), 500);
    let token = RequestError::InvalidToken { reason: "r".to_string() };
    assert_eq!(token.status_code(), 401);
    assert_eq!(RequestError::Unknown.status_code(), 500);
}
