use leadgen::auth::{
    constant_time_eq, create_session, hash_password, hash_password_with_salt, random_bytes, revoke_session, session_count,
    username_for_token, verify_password, SessionStore,
};

#[test]
fn hashes_and_verifies_password() {
    let h = hash_password("correct horse");
    // Not stored in plaintext.
    assert!(!h.contains("correct horse"));
    assert!(verify_password("correct horse", &h));
    assert!(!verify_password("wrong", &h));
}

#[test]
fn verify_rejects_malformed() {
    assert!(!verify_password("x", "not-a-hash"));
    assert!(!verify_password("x", "salt_only$"));
}

#[test]
fn constant_time_comparison_works() {
    assert!(constant_time_eq(b"abc", b"abc"));
    assert!(!constant_time_eq(b"abc", b"abd"));
    assert!(!constant_time_eq(b"ab", b"abc"));
    assert!(!constant_time_eq(&[0u8; 0], b"x"));
}

#[test]
fn sessions_create_and_validate() {
    let mut store = SessionStore::new();
    let now = 1_000u64;
    let t1 = create_session(&mut store, "alice", now);
    let t2 = create_session(&mut store, "bob", now);
    assert!(username_for_token(&mut store, &t1, now).is_some());
    assert!(username_for_token(&mut store, &t2, now).is_some());
    assert!(username_for_token(&mut store, "bogus-token", now).is_none());
    // Session is bound to the user who logged in.
    assert_eq!(username_for_token(&mut store, &t1, now).as_deref(), Some("alice"));
    assert_eq!(username_for_token(&mut store, &t2, now).as_deref(), Some("bob"));
    revoke_session(&mut store, &t1);
    assert!(username_for_token(&mut store, &t1, now).is_none());
    assert!(username_for_token(&mut store, &t2, now).is_some());
}

#[test]
fn hash_has_salt_and_key_parts() {
    let h = hash_password("pw");
    let parts: Vec<&str> = h.split('$').collect();
    assert_eq!(parts.len(), 2);
    assert!(!parts[0].is_empty() && !parts[1].is_empty());
    // Two hashes of one password differ (fresh salt) and both verify.
    let h2 = hash_password("pw");
    assert_ne!(h, h2);
    assert!(verify_password("pw", &h2));
}

#[test]
fn sessions_expire_after_a_week() {
    let mut store = SessionStore::new();
    let week: u64 = 604_800_000_000_000;
    let t = create_session(&mut store, "carol", 10);
    assert_eq!(session_count(&store, 10), 1);
    assert_eq!(username_for_token(&mut store, &t, 10 + week).as_deref(), Some("carol"));
    // Past its week the session is no longer counted, even before eviction.
    assert_eq!(session_count(&store, 11 + week), 0);
    assert_eq!(session_count(&store, 10 + week), 1);
    assert_eq!(username_for_token(&mut store, &t, 11 + week), None);
    // The expired session was evicted.
    assert_eq!(session_count(&store, 10), 0);
}

#[test]
fn session_tokens_are_fresh() {
    let mut store = SessionStore::new();
    let a = create_session(&mut store, "x", 0);
    let b = create_session(&mut store, "x", 0);
    assert_ne!(a, b);
    assert_eq!(a.len(), 44);
    assert_eq!(session_count(&store, 0), 2);
    revoke_session(&mut store, "not-a-token");
    assert_eq!(session_count(&store, 0), 2);
}

#[test]
fn random_bytes_have_requested_length() {
    assert_eq!(random_bytes(16).len(), 16);
    assert_eq!(random_bytes(0).len(), 0);
}

#[test]
fn record_has_fixed_shape() {
    let h = hash_password("correct horse");
    assert_eq!(h.len(), 69);
    assert_eq!(h.find('$'), Some(24));
    let salt = [7u8; 16];
    let a = hash_password_with_salt("pw", &salt);
    let b = hash_password_with_salt("pw", &salt);
    assert_eq!(a, b);
    assert!(a.starts_with("BwcHBwcHBwcHBwcHBwcHBw==$"));
    assert!(verify_password("pw", &a));
    assert!(!verify_password("pX", &a));
    assert_ne!(a, hash_password_with_salt("pX", &salt));
}
