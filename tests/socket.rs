use std::hash::{DefaultHasher, Hash, Hasher};

use shim::socket::{daemon_args, hex, socket_address, socket_path, socket_path_for_digest};

#[test]
fn hex_digits() {
    assert_eq!(hex(0), "0");
    assert_eq!(hex(15), "f");
    assert_eq!(hex(16), "10");
    assert_eq!(hex(0xdead_beef), "deadbeef");
    assert_eq!(hex(u64::MAX), "ffffffffffffffff");
}

#[test]
fn socket_path_from_digest() {
    assert_eq!(socket_path_for_digest(0xabc), "/run/shim/abc.sock");
}

#[test]
fn socket_path_hashes_id() {
    let mut hasher = DefaultHasher::new();
    "abc".hash(&mut hasher);
    let expected = format!("/run/shim/{:x}.sock", hasher.finish());
    assert_eq!(socket_path("abc"), expected);
    assert_eq!(socket_path("abc"), socket_path("abc"));
    assert_ne!(socket_path("abc"), socket_path("abd"));
}

#[test]
fn socket_address_is_unix_uri() {
    assert_eq!(socket_address("/run/shim/1f.sock"), "unix:///run/shim/1f.sock");
}

#[test]
fn daemon_arguments() {
    assert_eq!(
        daemon_args("/usr/sbin/runc", "abc", "/run/shim/1f.sock"),
        vec!["--runtime", "/usr/sbin/runc", "--id", "abc", "daemon", "/run/shim/1f.sock"]
    );
}
