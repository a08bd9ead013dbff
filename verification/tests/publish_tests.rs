use s3_nix_channel::errors::UpdateError;
use s3_nix_channel::keys::{artifact_object_key, channels_index_key, descriptor_object_key};
use s3_nix_channel::persistent::config_from_documents;
use s3_nix_channel::publish::{begin_update, finish_update};
use s3_nix_channel::refresh::refresh_step;

#[test]
fn update_archives_the_old_latest() {
    let docs = vec![("foo".to_string(), Some("{\"latest\":\"v1\"}".to_string()))];
    let cfg = config_from_documents(&docs);

    let plan = begin_update(&cfg, "foo", "v2.tar.xz").unwrap();
    assert_eq!(plan.object_key, "v2.tar.xz");
    assert_eq!(plan.basename, "v2");
    assert_eq!(plan.descriptor_key, "foo.json");
    assert_eq!(plan.new_descriptor.latest, "v2");
    assert_eq!(plan.new_descriptor.previous, vec!["v1".to_string()]);
    assert_eq!(plan.descriptor_text, "{\"latest\":\"v2\",\"previous\":[\"v1\"]}");

    // Write the descriptor back to the simulated store and update again.
    let docs2 = vec![("foo".to_string(), Some(plan.descriptor_text.clone()))];
    let cfg2 = config_from_documents(&docs2);
    let plan2 = begin_update(&cfg2, "foo", "v3.tar.xz").unwrap();
    assert_eq!(plan2.new_descriptor.latest, "v3");
    assert_eq!(
        plan2.new_descriptor.previous,
        vec!["v1".to_string(), "v2".to_string()]
    );
}

#[test]
fn update_with_wrong_suffix_fails_before_any_mutation() {
    let docs = vec![("foo".to_string(), Some("{\"latest\":\"v1\"}".to_string()))];
    let cfg = config_from_documents(&docs);
    match begin_update(&cfg, "foo", "v2.zip") {
        Err(UpdateError::InvalidFileName { file_name }) => {
            assert_eq!(file_name, "v2.zip");
        }
        _ => panic!("expected an invalid-file-name error"),
    }
    // The configuration is untouched: no plan exists, nothing to apply.
    assert_eq!(cfg.channel("foo").unwrap().latest, "v1");
    assert!(cfg.channel("foo").unwrap().previous.is_empty());
}

#[test]
fn update_of_unknown_channel_fails() {
    let docs = vec![("foo".to_string(), Some("{\"latest\":\"v1\"}".to_string()))];
    let cfg = config_from_documents(&docs);
    match begin_update(&cfg, "bar", "v2.tar.xz") {
        Err(UpdateError::NoSuchChannel { channel_name }) => {
            assert_eq!(channel_name, "bar");
        }
        _ => panic!("expected a no-such-channel error"),
    }
}

#[test]
fn failed_upload_leaves_the_channel_untouched() {
    let docs = vec![("foo".to_string(), Some("{\"latest\":\"v1\"}".to_string()))];
    let cfg = config_from_documents(&docs);
    let plan = begin_update(&cfg, "foo", "v2.tar.xz").unwrap();
    match finish_update(&plan, "foo", false, false) {
        Err(UpdateError::UploadFailed { object_key }) => {
            assert_eq!(object_key, "v2.tar.xz");
        }
        _ => panic!("expected an upload failure"),
    }
}

#[test]
fn failed_descriptor_write_is_a_distinct_leak() {
    let docs = vec![("foo".to_string(), Some("{\"latest\":\"v1\"}".to_string()))];
    let cfg = config_from_documents(&docs);
    let plan = begin_update(&cfg, "foo", "v2.tar.xz").unwrap();
    match finish_update(&plan, "foo", true, false) {
        Err(UpdateError::LeakedArtifact {
            channel_name,
            object_key,
        }) => {
            assert_eq!(channel_name, "foo");
            assert_eq!(object_key, "v2.tar.xz");
        }
        _ => panic!("expected a leaked-artifact failure"),
    }
    assert!(finish_update(&plan, "foo", true, true).is_ok());
}

#[test]
fn refresh_keeps_the_old_snapshot_on_failure() {
    let docs = vec![("foo".to_string(), Some("{\"latest\":\"v1\"}".to_string()))];
    let current = config_from_documents(&docs);
    let kept = refresh_step(current, None);
    assert_eq!(kept.channel("foo").unwrap().latest, "v1");

    let fresh_docs = vec![("foo".to_string(), Some("{\"latest\":\"v2\"}".to_string()))];
    let fresh = config_from_documents(&fresh_docs);
    let swapped = refresh_step(kept, Some(fresh));
    assert_eq!(swapped.channel("foo").unwrap().latest, "v2");
}

#[test]
fn object_keys_follow_the_layout() {
    assert_eq!(artifact_object_key("v1"), "v1.tar.xz");
    assert_eq!(descriptor_object_key("foo"), "foo.json");
    assert_eq!(channels_index_key(), "channels.json");
}
