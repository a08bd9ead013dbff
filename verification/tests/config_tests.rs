use s3_nix_channel::persistent::{
    config_from_documents, descriptor_json, parse_channel_descriptor, parse_channels_index,
    ChannelConfig,
};

#[test]
fn index_parses_plain_list() {
    let names = parse_channels_index("{\"channels\":[\"stable\",\"beta\"]}").unwrap();
    assert_eq!(names, vec!["stable".to_string(), "beta".to_string()]);
}

#[test]
fn index_parses_with_whitespace_and_unknown_members() {
    let text = " { \"note\" : \"x\" , \"channels\" : [ \"a\" ] } ";
    let names = parse_channels_index(text).unwrap();
    assert_eq!(names, vec!["a".to_string()]);
}

#[test]
fn index_parses_empty_list() {
    let names = parse_channels_index("{\"channels\":[]}").unwrap();
    assert!(names.is_empty());
}

#[test]
fn index_without_channels_member_is_malformed() {
    assert!(parse_channels_index("{\"other\":[\"a\"]}").is_none());
}

#[test]
fn index_with_string_channels_is_malformed() {
    assert!(parse_channels_index("{\"channels\":\"a\"}").is_none());
}

#[test]
fn index_with_trailing_text_is_malformed() {
    assert!(parse_channels_index("{\"channels\":[\"a\"]} x").is_none());
    assert!(parse_channels_index("{\"channels\":[\"a\"]").is_none());
    assert!(parse_channels_index("").is_none());
}

#[test]
fn index_with_repeated_channels_member_is_malformed() {
    assert!(parse_channels_index("{\"channels\":[\"a\"],\"channels\":[\"b\"]}").is_none());
}

#[test]
fn descriptor_parses_without_previous() {
    let d = parse_channel_descriptor("{\"latest\":\"v1\"}").unwrap();
    assert_eq!(d.latest, "v1");
    assert!(d.previous.is_empty());
}

#[test]
fn descriptor_parses_with_previous() {
    let d = parse_channel_descriptor("{\"latest\":\"v3\",\"previous\":[\"v1\",\"v2\"]}").unwrap();
    assert_eq!(d.latest, "v3");
    assert_eq!(d.previous, vec!["v1".to_string(), "v2".to_string()]);
}

#[test]
fn descriptor_parses_escapes() {
    let d = parse_channel_descriptor("{\"latest\":\"a\\\"b\\\\c\\n\"}").unwrap();
    assert_eq!(d.latest, "a\"b\\c\n");
}

#[test]
fn descriptor_rejects_malformed_documents() {
    assert!(parse_channel_descriptor("{\"previous\":[\"v1\"]}").is_none());
    assert!(parse_channel_descriptor("{\"latest\":[\"v1\"]}").is_none());
    assert!(parse_channel_descriptor("{\"latest\":\"v1\",\"previous\":\"v0\"}").is_none());
    assert!(parse_channel_descriptor("{\"latest\":\"v1\",\"latest\":\"v2\"}").is_none());
    assert!(parse_channel_descriptor("not json").is_none());
}

#[test]
fn descriptor_renders_exactly() {
    let d = ChannelConfig { latest: "v2".to_string(), previous: vec!["v1".to_string()] };
    assert_eq!(descriptor_json(&d), "{\"latest\":\"v2\",\"previous\":[\"v1\"]}");
    let e = ChannelConfig { latest: "v1".to_string(), previous: vec![] };
    assert_eq!(descriptor_json(&e), "{\"latest\":\"v1\",\"previous\":[]}");
}

#[test]
fn descriptor_render_parse_round_trip() {
    let d = ChannelConfig {
        latest: "a\"b\\c".to_string(),
        previous: vec!["v1".to_string(), "x\ty".to_string()],
    };
    let parsed = parse_channel_descriptor(&descriptor_json(&d)).unwrap();
    assert_eq!(parsed.latest, d.latest);
    assert_eq!(parsed.previous, d.previous);
}

#[test]
fn one_broken_descriptor_never_fails_the_load() {
    let docs = vec![
        ("good".to_string(), Some("{\"latest\":\"v1\"}".to_string())),
        ("bad".to_string(), Some("{".to_string())),
        ("missing".to_string(), None),
    ];
    let cfg = config_from_documents(&docs);
    assert_eq!(cfg.channels(), vec!["good".to_string()]);
    assert!(cfg.channel("good").is_some());
    assert!(cfg.channel("bad").is_none());
    assert!(cfg.channel("missing").is_none());
    assert!(cfg.channel("absent").is_none());
}

#[test]
fn loading_the_same_state_twice_gives_equal_snapshots() {
    let docs = vec![
        ("a".to_string(), Some("{\"latest\":\"v1\",\"previous\":[\"v0\"]}".to_string())),
        ("b".to_string(), Some("{\"latest\":\"w2\"}".to_string())),
    ];
    let c1 = config_from_documents(&docs);
    let c2 = config_from_documents(&docs);
    assert_eq!(c1.channels(), c2.channels());
    for name in c1.channels() {
        let d1 = c1.channel(&name).unwrap();
        let d2 = c2.channel(&name).unwrap();
        assert_eq!(d1.latest, d2.latest);
        assert_eq!(d1.previous, d2.previous);
    }
}

#[test]
fn later_duplicate_name_replaces_earlier() {
    let docs = vec![
        ("a".to_string(), Some("{\"latest\":\"v1\"}".to_string())),
        ("a".to_string(), Some("{\"latest\":\"v2\"}".to_string())),
    ];
    let cfg = config_from_documents(&docs);
    assert_eq!(cfg.channels(), vec!["a".to_string()]);
    assert_eq!(cfg.channel("a").unwrap().latest, "v2");
}
