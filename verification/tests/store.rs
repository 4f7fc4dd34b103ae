//! The authentication session store: tokens, revocation, expiry.

use webshell::auth::{authenticate_os, authenticate_remote, generate_token, username_is_valid,
    OsAuthOutcome, RemoteAuthOutcome, SessionStore};

#[test]
fn test_session_store() {
    let mut store = SessionStore::new();
    let token = store.create_session("testuser".to_string(), 0);

    let username = store.validate_session(&token);
    assert_eq!(username, Some("testuser".to_string()));

    store.remove_session(&token);
    let username = store.validate_session(&token);
    assert_eq!(username, None);
}

#[test]
fn token_is_64_hex_chars() {
    let t = generate_token(123456789);
    assert_eq!(t.len(), 64);
    assert!(t.chars().all(|c| c.is_ascii_digit() || ('a'..='f').contains(&c)));
}

#[test]
fn two_tokens_differ() {
    let a = generate_token(1);
    let b = generate_token(1);
    assert_ne!(a, b);
}

#[test]
fn unknown_token_is_rejected() {
    let store = SessionStore::new();
    assert_eq!(store.validate_session("deadbeef"), None);
}

#[test]
fn logout_twice_is_noop() {
    let mut store = SessionStore::new();
    let keep = store.create_session("alice".to_string(), 0);
    let gone = store.create_session("bob".to_string(), 0);
    store.remove_session(&gone);
    assert_eq!(store.validate_session(&gone), None);
    store.remove_session(&gone);
    assert_eq!(store.validate_session(&gone), None);
    assert_eq!(store.validate_session(&keep), Some("alice".to_string()));
}

#[test]
fn expired_session_is_cleaned_up() {
    let mut store = SessionStore::new();
    let old = store.create_session("alice".to_string(), 0);
    let recent_stamp = 10_000_000_000_000u64;
    let recent = store.create_session("bob".to_string(), recent_stamp);
    // 25 hours past the epoch: the first session is beyond the 24-hour cap.
    let now = 90_000_000_000_000u64;
    store.cleanup_expired(now);
    assert_eq!(store.validate_session(&old), None);
    assert_eq!(store.validate_session(&recent), Some("bob".to_string()));
}

#[test]
fn os_auth_requires_credentials() {
    let r = authenticate_os("", "pw", &OsAuthOutcome::Accepted);
    assert_eq!(r, Err("Username and password required".to_string()));
    let r = authenticate_os("alice", "", &OsAuthOutcome::Accepted);
    assert_eq!(r, Err("Username and password required".to_string()));
}

#[test]
fn os_auth_rejects_unsafe_username() {
    let r = authenticate_os("alice;rm", "pw", &OsAuthOutcome::Accepted);
    assert_eq!(r, Err("Invalid username".to_string()));
    assert!(!username_is_valid("a b"));
    assert!(!username_is_valid("x$y"));
    assert!(username_is_valid("alice_2.bak-3"));
}

#[test]
fn os_auth_follows_the_check() {
    assert_eq!(
        authenticate_os("alice", "pw", &OsAuthOutcome::Accepted),
        Ok("alice".to_string())
    );
    assert_eq!(
        authenticate_os("alice", "pw", &OsAuthOutcome::Rejected),
        Err("Invalid username or password".to_string())
    );
    // A check that could not run reports the same fixed message as a
    // rejection: the response must not reveal the cause.
    assert_eq!(
        authenticate_os(
            "alice",
            "pw",
            &OsAuthOutcome::Error("Failed to spawn auth process: oh no".to_string())
        ),
        Err("Invalid username or password".to_string())
    );
    assert_eq!(
        authenticate_os("alice", "pw", &OsAuthOutcome::Unsupported),
        Err("Authentication not supported on this platform".to_string())
    );
}

#[test]
fn remote_auth_failures_share_one_message() {
    assert_eq!(
        authenticate_remote("alice", &RemoteAuthOutcome::Accepted),
        Ok("alice".to_string())
    );
    // Whatever stage failed — connect, key loading, or the credentials —
    // the client sees the one fixed message.
    for detail in [
        "SSH connection failed: connection refused",
        "Failed to load key file: no such file",
        "Authentication failed",
    ] {
        assert_eq!(
            authenticate_remote("alice", &RemoteAuthOutcome::Failed(detail.to_string())),
            Err("Invalid username or password".to_string())
        );
    }
}
