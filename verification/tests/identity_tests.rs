//! Identity derivation and error texts.

use ip_chat::errors::AppError;
use ip_chat::identity::{fresh_uuid, generate_user_id, make_local_user, read_hostname};
use ip_chat::strutil::{str_contains, str_eq};

#[test]
fn user_id_is_stable_across_calls() {
    let a = generate_user_id("alpha-host");
    let b = generate_user_id("alpha-host");
    assert_eq!(a, b);
}

#[test]
fn user_id_shape() {
    let id = generate_user_id("alpha-host");
    assert!(id.starts_with("user-"));
    let hex = &id["user-".len()..];
    assert!(!hex.is_empty());
    assert!(hex.len() <= 8);
    assert!(hex.chars().all(|c| c.is_ascii_hexdigit() && !c.is_ascii_uppercase()));
}

#[test]
fn different_hosts_get_different_ids() {
    assert_ne!(generate_user_id("alpha-host"), generate_user_id("beta-host"));
}

#[test]
fn local_user_fallbacks() {
    let u = make_local_user(None, None, 5);
    assert_eq!(u.name, "Unknown User");
    assert_eq!(u.ip, "127.0.0.1");
    assert_eq!(u.id, generate_user_id("unknown"));
    assert_eq!(u.last_seen, 5);
}

#[test]
fn local_user_from_platform_values() {
    let u = make_local_user(
        Some(String::from("alpha")),
        Some(String::from("192.168.1.10")),
        1700000000,
    );
    assert_eq!(u.name, "alpha");
    assert_eq!(u.ip, "192.168.1.10");
    assert_eq!(u.id, generate_user_id("alpha"));
}

#[test]
fn uuid_and_hostname_calls_work() {
    let a = fresh_uuid();
    let b = fresh_uuid();
    assert!(!a.is_empty());
    assert_ne!(a, b);
    // machine-dependent; only that the call returns is checked
    let _ = read_hostname();
}

#[test]
fn error_texts() {
    assert_eq!(
        AppError::DiscoveryError(String::from("Discovery already running")).message(),
        "Network discovery error: Discovery already running"
    );
    assert_eq!(
        AppError::TransferNotFound(String::from("t-1")).message(),
        "Transfer not found: t-1"
    );
    assert_eq!(AppError::NetworkError(String::from("timeout")).message(), "Network error: timeout");
    assert_eq!(AppError::IoError(String::from("gone")).message(), "I/O error: gone");
    assert_eq!(
        AppError::SerializationError(String::from("bad json")).message(),
        "Serialization error: bad json"
    );
    assert_eq!(AppError::MdnsError(String::from("daemon")).message(), "mDNS error: daemon");
    assert_eq!(AppError::FileNotFound(String::from("/tmp/x")).message(), "File not found: /tmp/x");
    assert_eq!(
        AppError::FileTransferError(String::from("no ip")).message(),
        "File transfer error: no ip"
    );
    assert_eq!(
        AppError::InvalidOperation(String::from("nope")).message(),
        "Invalid operation: nope"
    );
    assert_eq!(AppError::UserNotFound(String::from("u")).message(), "User not found: u");
    assert_eq!(AppError::ChatError(String::from("c")).message(), "Chat error: c");
    assert_eq!(AppError::Other(String::from("o")).message(), "Other error: o");
}

#[test]
fn string_helpers() {
    assert!(str_eq("abc", "abc"));
    assert!(!str_eq("abc", "abd"));
    assert!(str_contains("ip-chat-user-12345678", "user-12345678"));
    assert!(!str_contains("ip-chat-user-1234", "user-12345678"));
    assert!(str_contains("anything", ""));
}
