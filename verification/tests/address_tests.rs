use hypernote::address::{
    default_share_host, get_share_target, is_self_join_target, normalize_join_target,
    parse_host_port_target,
};

#[test]
fn blocks_loopback_self_join_targets() {
    assert!(is_self_join_target("localhost:4747", "testbox", None));
    assert!(is_self_join_target("127.0.0.1:4747", "testbox", None));
    assert!(!is_self_join_target("127.0.0.1:4748", "testbox", None));
}

#[test]
fn normalizes_host_without_port() {
    let normalized = normalize_join_target("peer-host").expect("normalize should succeed");
    assert_eq!(normalized, "peer-host:4747");
}

#[test]
fn normalize_is_idempotent_on_valid_targets() {
    for raw in [
        "example.com:8080",
        "  spaced.host:1  ",
        "ws://h:65535",
        "peer-host",
        "10.0.0.7:4747",
        "host:0080",
    ] {
        let once = normalize_join_target(raw).expect("first normalization should succeed");
        let twice = normalize_join_target(&once).expect("second normalization should succeed");
        assert_eq!(once, twice);
    }
}

#[test]
fn ws_scheme_requires_port() {
    let err = normalize_join_target("ws://host").unwrap_err();
    assert_eq!(err, "target must be ws://host:port");
    assert_eq!(normalize_join_target("host").unwrap(), "host:4747");
    assert_eq!(normalize_join_target("ws://host:9001").unwrap(), "host:9001");
}

#[test]
fn rejects_malformed_targets() {
    assert!(normalize_join_target("bad host").is_err());
    assert!(normalize_join_target("host/path").is_err());
    assert!(normalize_join_target("http://host:1").is_err());
    assert_eq!(
        normalize_join_target("http://host:1").unwrap_err(),
        "only ws:// scheme is supported"
    );
    assert_eq!(
        normalize_join_target("host?q").unwrap_err(),
        "target contains unsupported characters"
    );
    assert_eq!(normalize_join_target("").unwrap_err(), "target is empty");
    assert_eq!(normalize_join_target("   ").unwrap_err(), "target is empty");
    assert_eq!(normalize_join_target(":4747").unwrap_err(), "host is missing");
    assert_eq!(
        normalize_join_target("a:b:4747").unwrap_err(),
        "target host format is invalid"
    );
}

#[test]
fn rejects_ports_out_of_range() {
    assert!(normalize_join_target("host:0").is_err());
    assert!(normalize_join_target("host:70000").is_err());
    assert_eq!(
        normalize_join_target("host:0").unwrap_err(),
        "port must be between 1 and 65535"
    );
    assert_eq!(
        normalize_join_target("host:70000").unwrap_err(),
        "port must be between 1 and 65535"
    );
    assert_eq!(normalize_join_target("host:65535").unwrap(), "host:65535");
    assert!(normalize_join_target("host:65536").is_err());
    assert_eq!(
        normalize_join_target("host:0x10").unwrap_err(),
        "port must be between 1 and 65535"
    );
}

#[test]
fn normalizes_leading_zero_and_signed_ports() {
    assert_eq!(normalize_join_target("host:0080").unwrap(), "host:80");
    assert_eq!(normalize_join_target("host:+80").unwrap(), "host:80");
    assert!(normalize_join_target("host:-1").is_err());
    assert!(normalize_join_target("host:+").is_err());
}

#[test]
fn parse_host_port_requires_port_only_under_scheme() {
    assert_eq!(
        parse_host_port_target("h", true).unwrap_err(),
        "target must be ws://host:port"
    );
    assert_eq!(parse_host_port_target("h", false).unwrap(), "h:4747");
}

#[test]
fn detects_self_by_hostname_ignoring_case() {
    assert!(is_self_join_target("MyBox:4747", "mybox", None));
    assert!(is_self_join_target("mybox.LOCAL:4747", "MyBox", None));
    assert!(!is_self_join_target("otherbox:4747", "mybox", None));
    assert!(!is_self_join_target("mybox:4748", "mybox", None));
}

#[test]
fn detects_self_by_detected_address() {
    assert!(is_self_join_target("10.0.0.5:4747", "box", Some("10.0.0.5")));
    assert!(!is_self_join_target("10.0.0.6:4747", "box", Some("10.0.0.5")));
    assert!(!is_self_join_target("10.0.0.5:4748", "box", Some("10.0.0.5")));
}

#[test]
fn share_host_gains_local_suffix_without_domain() {
    assert_eq!(default_share_host("box"), "box.local");
    assert_eq!(default_share_host("a.b"), "a.b");
}

#[test]
fn share_target_prefers_detected_address() {
    assert_eq!(
        get_share_target(Some("192.168.1.5"), "box"),
        "ws://192.168.1.5:4747"
    );
    assert_eq!(get_share_target(None, "box"), "ws://box.local:4747");
    assert_eq!(get_share_target(None, "a.b"), "ws://a.b:4747");
}
