use hypernote::discovery::{
    contains_str, discovery_dial_target, discovery_should_dial, mdns_host_name,
};

#[test]
fn own_advertisement_is_skipped_by_name() {
    let id = "3f2a-self-id";
    let own = format!("{id}._hypernote._tcp.local.");
    assert!(!discovery_should_dial(&own, id));
    assert!(discovery_should_dial("other._hypernote._tcp.local.", id));
}

#[test]
fn resolved_addresses_are_dialed_on_the_fixed_port() {
    assert_eq!(discovery_dial_target("10.0.0.7"), "10.0.0.7:4747");
}

#[test]
fn advertised_host_name_carries_local_suffix() {
    assert_eq!(mdns_host_name("box"), "box.local.");
}

#[test]
fn substring_search_matches_rust_contains() {
    for (hay, needle) in [
        ("abcdef", "cde"),
        ("abcdef", "abcdef"),
        ("abcdef", ""),
        ("abcdef", "xyz"),
        ("aaa", "aa"),
        ("", "a"),
        ("", ""),
        ("abcabc", "cab"),
    ] {
        assert_eq!(contains_str(hay, needle), hay.contains(needle), "{hay:?} {needle:?}");
    }
}
