use authcore::errors::AuthError;
use authcore::session::RefreshService;
use authcore::claims::Claims;
use authcore::token::JwtService;

const NOW: i64 = 1_700_000_000;

#[test]
fn create_and_rotate_succeeds_once() {
    let mut store = RefreshService::new();
    let (_sid, secret) = store.create_session(5, None, None, NOW).unwrap();
    // rotation monotonicity: the fresh secret rotates once...
    let (user_id, secret2) = store.verify_and_rotate(secret.as_str(), NOW + 60).unwrap();
    assert_eq!(user_id, 5);
    assert_ne!(secret, secret2);
    // ...and presenting the superseded secret afterwards always fails
    let replay = store.verify_and_rotate(secret.as_str(), NOW + 120);
    assert!(replay.is_err());
}

#[test]
fn rotated_session_accepts_current_secret_again() {
    // rotated is not terminal: the current link keeps rotating
    let mut store = RefreshService::new();
    let (_sid, s1) = store.create_session(9, None, None, NOW).unwrap();
    let (_u, s2) = store.verify_and_rotate(s1.as_str(), NOW + 10).unwrap();
    let (_u, s3) = store.verify_and_rotate(s2.as_str(), NOW + 20).unwrap();
    let (_u, _s4) = store.verify_and_rotate(s3.as_str(), NOW + 30).unwrap();
}

#[test]
fn reuse_detection_revokes_the_whole_family() {
    let mut store = RefreshService::new();
    // the actor has two sessions (two devices)
    let (_sid_a, secret_a) = store.create_session(7, None, None, NOW).unwrap();
    let (_sid_b, secret_b) = store.create_session(7, None, None, NOW).unwrap();
    // first session rotates: old secret A is superseded by A2
    let (_u, _a2) = store.verify_and_rotate(secret_a.as_str(), NOW + 10).unwrap();
    // replaying A is theft: the call fails...
    let replay = store.verify_and_rotate(secret_a.as_str(), NOW + 20);
    assert_eq!(replay.unwrap_err(), AuthError::ReuseDetected);
    // ...and every session of the actor is revoked, so even the never-used
    // secret of the second session now fails
    let b_after = store.verify_and_rotate(secret_b.as_str(), NOW + 30);
    assert_eq!(b_after.unwrap_err(), AuthError::InvalidOrExpired);
}

#[test]
fn reuse_detection_kills_the_fresh_secret_too() {
    let mut store = RefreshService::new();
    let (_sid, a) = store.create_session(3, None, None, NOW).unwrap();
    let (_u, b) = store.verify_and_rotate(a.as_str(), NOW + 10).unwrap();
    assert_eq!(
        store.verify_and_rotate(a.as_str(), NOW + 20).unwrap_err(),
        AuthError::ReuseDetected
    );
    // B was never used, but the family is revoked
    assert_eq!(
        store.verify_and_rotate(b.as_str(), NOW + 30).unwrap_err(),
        AuthError::InvalidOrExpired
    );
}

#[test]
fn unknown_secret_is_invalid_or_expired() {
    let mut store = RefreshService::new();
    let (_sid, _secret) = store.create_session(1, None, None, NOW).unwrap();
    let r = store.verify_and_rotate("AAAAAAAAAAAAAAAAAAAAAAAAAAAAAAAAAAAAAAAAAAA", NOW + 1);
    assert_eq!(r.unwrap_err(), AuthError::InvalidOrExpired);
}

#[test]
fn expired_session_no_longer_rotates() {
    let mut store = RefreshService::new();
    let (_sid, secret) = store.create_session(2, None, None, NOW).unwrap();
    // fourteen days later the session is expired
    let later = NOW + 1_209_600;
    let r = store.verify_and_rotate(secret.as_str(), later);
    assert_eq!(r.unwrap_err(), AuthError::InvalidOrExpired);
}

#[test]
fn revoke_session_blocks_rotation_and_is_idempotent() {
    let mut store = RefreshService::new();
    let (sid, secret) = store.create_session(4, None, None, NOW).unwrap();
    store.revoke_session(sid, NOW + 5);
    store.revoke_session(sid, NOW + 6);
    let r = store.verify_and_rotate(secret.as_str(), NOW + 10);
    assert_eq!(r.unwrap_err(), AuthError::InvalidOrExpired);
}

#[test]
fn revoke_user_sessions_blocks_every_device() {
    let mut store = RefreshService::new();
    let (_s1, a) = store.create_session(8, None, None, NOW).unwrap();
    let (_s2, b) = store.create_session(8, None, None, NOW).unwrap();
    let (_s3, other) = store.create_session(9, None, None, NOW).unwrap();
    store.revoke_user_sessions(8, NOW + 1);
    assert!(store.verify_and_rotate(a.as_str(), NOW + 2).is_err());
    assert!(store.verify_and_rotate(b.as_str(), NOW + 3).is_err());
    // the other actor's session still works
    assert!(store.verify_and_rotate(other.as_str(), NOW + 4).is_ok());
}

#[test]
fn cleanup_removes_expired_and_long_revoked_rows() {
    let mut store = RefreshService::new();
    let (_s1, _a) = store.create_session(1, None, None, NOW).unwrap();
    let (s2, _b) = store.create_session(2, None, None, NOW).unwrap();
    let (_s3, _c) = store.create_session(3, None, None, NOW).unwrap();
    // revoke one row now; it is only removed after the retention window
    store.revoke_session(s2, NOW);
    assert_eq!(store.cleanup_expired(NOW + 1), 0);
    // eight days later the revoked row goes; the others are still live
    let eight_days = NOW + 8 * 86_400;
    assert_eq!(store.cleanup_expired(eight_days), 1);
    // past expiry everything goes
    let later = NOW + 1_209_601;
    assert_eq!(store.cleanup_expired(later), 2);
    assert_eq!(store.cleanup_expired(later), 0);
}

#[test]
fn stale_refresh_fails_but_old_access_token_survives() {
    // a client logged in and holds an access token and refresh secret
    let jwt = JwtService::new("dev_32bytes_minimum_secret________________________________");
    let mut store = RefreshService::new();
    let (_sid, old_refresh) = store.create_session(11, None, None, NOW).unwrap();
    let claims = Claims::new(11, 1, vec!["student".to_string()], vec![], None, NOW);
    let access = jwt.create_token(&claims).unwrap();
    // a concurrent request rotated the session ten minutes ago
    let (_u, _fresh) = store.verify_and_rotate(old_refresh.as_str(), NOW + 10).unwrap();
    // presenting the stale refresh secret fails as an authentication error
    assert!(store.verify_and_rotate(old_refresh.as_str(), NOW + 600).is_err());
    // but the access token is not invalidated by rotation: it holds until
    // its own fifteen-minute expiry
    assert!(jwt.verify_token(access.as_str(), NOW + 600).is_ok());
    assert!(jwt.verify_token(access.as_str(), NOW + 900).is_err());
}
