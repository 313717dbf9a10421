use opentainer_core::connection::{
    cli_host_arg, colima_socket_path, colima_socket_url, default_connection_label,
    ConnectionSlot, COLIMA_CONNECT_TIMEOUT_SECS,
};
use opentainer_core::text::{contains_substr, str_eq, u64_to_string};

#[test]
fn discovery_labels_and_socket_paths() {
    assert_eq!(default_connection_label(), "default");
    assert_eq!(
        colima_socket_path("/Users/me"),
        "/Users/me/.colima/default/docker.sock"
    );
    assert_eq!(
        colima_socket_url("/Users/me"),
        "unix:///Users/me/.colima/default/docker.sock"
    );
    assert_eq!(COLIMA_CONNECT_TIMEOUT_SECS, 120);
}

#[test]
fn cli_host_arg_only_for_real_socket_paths() {
    assert_eq!(cli_host_arg("default"), None);
    assert_eq!(cli_host_arg(""), None);
    assert_eq!(
        cli_host_arg("/tmp/docker.sock"),
        Some("unix:///tmp/docker.sock".to_string())
    );
}

#[test]
fn connection_slot_caches_after_discovery() {
    let mut slot = ConnectionSlot::new();
    assert!(slot.must_connect());
    assert_eq!(slot.get_path(), "");
    slot.note_connected("default".to_string());
    assert!(!slot.must_connect());
    assert_eq!(slot.get_path(), "default");
    slot.note_connected("/tmp/docker.sock".to_string());
    assert_eq!(slot.get_path(), "/tmp/docker.sock");
}

#[test]
fn substring_search_matches_std() {
    assert!(contains_substr("colima is not running", "not running"));
    assert!(!contains_substr("all good", "not running"));
    assert!(contains_substr("abc", ""));
    assert!(contains_substr("abc", "abc"));
    assert!(!contains_substr("ab", "abc"));
    assert!(contains_substr("aaab", "aab"));
}

#[test]
fn string_equality_matches_std() {
    assert!(str_eq("start", "start"));
    assert!(!str_eq("start", "stop"));
    assert!(!str_eq("", "a"));
    assert!(str_eq("", ""));
}

#[test]
fn decimal_rendering_matches_std() {
    assert_eq!(u64_to_string(0), "0");
    assert_eq!(u64_to_string(7), "7");
    assert_eq!(u64_to_string(30), "30");
    assert_eq!(u64_to_string(1234567890), "1234567890");
    assert_eq!(u64_to_string(u64::MAX), u64::MAX.to_string());
}
