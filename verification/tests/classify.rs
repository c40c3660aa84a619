use tickstream::classify::{contains_bytes, is_fatal_error, lower_bytes};

#[test]
fn authentication_vocabulary_is_fatal() {
    assert!(is_fatal_error("unauthorized access"));
    assert!(is_fatal_error("UNAUTHORIZED"));
    assert!(is_fatal_error("Authentication handshake rejected"));
    assert!(is_fatal_error("Invalid API key"));
    assert!(is_fatal_error("invalid token"));
    assert!(is_fatal_error("HTTP error 401"));
    assert!(is_fatal_error("server replied 403 Forbidden"));
    assert!(is_fatal_error("Forbidden"));
    assert!(is_fatal_error("access forbidden by server"));
}

#[test]
fn transport_hiccups_are_recoverable() {
    assert!(!is_fatal_error("connection reset"));
    assert!(!is_fatal_error("Connection refused (os error 111)"));
    assert!(!is_fatal_error("broken pipe"));
    assert!(!is_fatal_error("timed out"));
    assert!(!is_fatal_error(""));
}

#[test]
fn the_marker_must_appear_whole() {
    assert!(!is_fatal_error("au th"));
    assert!(!is_fatal_error("40 1"));
    assert!(is_fatal_error("xxauthxx"));
}

#[test]
fn lowercasing_touches_only_ascii_letters() {
    assert_eq!(lower_bytes(b"AbC 401!"), b"abc 401!".to_vec());
    assert_eq!(lower_bytes(b""), Vec::<u8>::new());
}

#[test]
fn substring_search_over_bytes() {
    assert!(contains_bytes(b"hello world", b"o wo"));
    assert!(contains_bytes(b"abc", b""));
    assert!(!contains_bytes(b"abc", b"abcd"));
    assert!(!contains_bytes(b"abc", b"ac"));
    assert!(contains_bytes(b"aaab", b"aab"));
}
