use mdsight::socket::{dir_is_private, is_raise_request, socket_name, socket_path};

#[test]
fn names_the_same_document_the_same_way() {
    assert_eq!(socket_name("/tmp/a.md"), socket_name("/tmp/a.md"));
}

#[test]
fn names_different_documents_differently() {
    assert_ne!(socket_name("/tmp/a.md"), socket_name("/tmp/b.md"));
}

#[test]
fn keeps_the_name_stable_across_builds() {
    // known FNV-1a values: a change would keep windows of other mdsight versions from being found
    assert_eq!(socket_name(""), "cbf29ce484222325.sock");
    assert_eq!(socket_name("a"), "af63dc4c8601ec8c.sock");
}

#[test]
fn places_the_socket_in_the_directory() {
    assert_eq!(socket_path("/tmp/mdsight-1000", ""), "/tmp/mdsight-1000/cbf29ce484222325.sock");
}

#[test]
fn accepts_only_the_raise_request() {
    assert!(is_raise_request(b"raise\n"));
    assert!(!is_raise_request(b"raise"));
    assert!(!is_raise_request(b"raisE\n"));
    assert!(!is_raise_request(b""));
}

#[test]
fn uses_only_a_private_directory() {
    assert!(dir_is_private(true, 1000, 1000, 0o700));
    assert!(!dir_is_private(false, 1000, 1000, 0o700));
    assert!(!dir_is_private(true, 0, 1000, 0o700));
    assert!(!dir_is_private(true, 1000, 1000, 0o755));
}

#[test]
fn hashes_bytes_with_fnv1a() {
    assert_eq!(mdsight::socket::fnv1a_hash(b""), 0xcbf2_9ce4_8422_2325);
    assert_eq!(mdsight::socket::fnv1a_hash(b"a"), 0xaf63_dc4c_8601_ec8c);
}
