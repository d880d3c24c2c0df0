use argon2::password_hash::{rand_core::OsRng, SaltString};
use argon2::{Argon2, PasswordHasher};
use authcore::claims::ActorContext;
use authcore::errors::AuthError;
use authcore::flow::{
    lookup_key, login_finish, validate_login_request, verify_credentials, ActorRow, ActorType,
    LoginRequest,
};
use authcore::rbac::{build_context, StudentProfile, TeacherProfile};
use authcore::rbac::{default_permission_table, RbacService};
use authcore::session::RefreshService;
use authcore::token::JwtService;

const NOW: i64 = 1_700_000_000;

#[test]
fn student_role_grants_exactly_the_student_permissions() {
    let svc = RbacService::new(default_permission_table());
    let snapshot = svc.get_user_permissions(
        650123,
        vec!["student".to_string()],
        None,
        None,
        None,
    );
    assert_eq!(snapshot.roles, vec!["student".to_string()]);
    assert_eq!(
        snapshot.permissions,
        vec![
            "class:read".to_string(),
            "attend:read".to_string(),
            "grade:read".to_string()
        ]
    );
    assert!(snapshot.context.is_none());
}

#[test]
fn union_is_deduplicated_and_order_independent() {
    let svc = RbacService::new(default_permission_table());
    // admin and teacher overlap on several permissions
    let a = svc.get_user_permissions(
        1,
        vec!["admin".to_string(), "teacher".to_string()],
        None,
        None,
        None,
    );
    let b = svc.get_user_permissions(
        1,
        vec!["teacher".to_string(), "admin".to_string()],
        None,
        None,
        None,
    );
    // no duplicates
    let mut seen: Vec<&String> = Vec::new();
    for p in &a.permissions {
        assert!(!seen.contains(&p));
        seen.push(p);
    }
    // same set either way round
    assert_eq!(a.permissions.len(), b.permissions.len());
    for p in &a.permissions {
        assert!(b.permissions.contains(p));
    }
    // the union covers all nine admin permissions
    assert_eq!(a.permissions.len(), 9);
}

#[test]
fn has_permission_matches_the_join() {
    let svc = RbacService::new(default_permission_table());
    let roles = vec!["parent".to_string()];
    assert!(svc.user_has_permission(&roles, "attend:read"));
    assert!(svc.user_has_permission(&roles, "grade:read"));
    assert!(!svc.user_has_permission(&roles, "grade:write"));
    assert!(!svc.user_has_permission(&roles, "system:admin"));
    let nobody: Vec<String> = vec![];
    assert!(!svc.user_has_permission(&nobody, "class:read"));
}

#[test]
fn context_priority_is_teacher_then_student_then_guardian() {
    // teacher wins over student and guardian
    let ctx = build_context(
        Some(TeacherProfile {
            personnel_no: "P-9".to_string(),
            department_id: None,
        }),
        Some(StudentProfile {
            student_code: "S-1".to_string(),
            class_id: None,
        }),
        Some(vec![4, 5]),
    );
    match ctx {
        Some(ActorContext::Teacher { personnel_no, class_ids, .. }) => {
            assert_eq!(personnel_no, "P-9");
            assert_eq!(class_ids, vec!["class-1".to_string(), "class-2".to_string()]);
        }
        _ => panic!("teacher context expected"),
    }
    // student wins over guardian
    let ctx = build_context(
        None,
        Some(StudentProfile {
            student_code: "STD-650123".to_string(),
            class_id: Some(12),
        }),
        Some(vec![4]),
    );
    match ctx {
        Some(ActorContext::Student { student_code, class_id }) => {
            assert_eq!(student_code, "STD-650123");
            assert_eq!(class_id, Some(12));
        }
        _ => panic!("student context expected"),
    }
    // guardian only when nothing else matches
    let ctx = build_context(None, None, Some(vec![41, 42]));
    match ctx {
        Some(ActorContext::Guardian { children }) => assert_eq!(children, vec![41, 42]),
        _ => panic!("guardian context expected"),
    }
    assert!(build_context(None, None, None).is_none());
}

fn argon_hash_for_test(secret: &str) -> String {
    let salt = SaltString::generate(&mut OsRng);
    Argon2::default()
        .hash_password(secret.as_bytes(), &salt)
        .unwrap()
        .to_string()
}

#[test]
fn student_login_end_to_end() {
    // seeded record: student STD-650123 with password Passw0rd!
    let req = LoginRequest {
        actor_type: "student".to_string(),
        id: "STD-650123".to_string(),
        password: Some("Passw0rd!".to_string()),
        otp: None,
        school_id: "00000000-0000-0000-0000-000000000001".to_string(),
    };
    let at = validate_login_request(&req).unwrap();
    assert_eq!(at, ActorType::Student);
    // students are looked up by their plain code
    let key = lookup_key(at, req.id.as_str(), "demo_salt");
    assert_eq!(key, "STD-650123");
    // the store returns the seeded row for that key
    let row = ActorRow {
        id: 650123,
        active: true,
        password_hash: Some(argon_hash_for_test("Passw0rd!")),
    };
    let user_id = verify_credentials(Some(row), "Passw0rd!").unwrap();
    assert_eq!(user_id, 650123);
    // snapshot and credentials
    let svc = RbacService::new(default_permission_table());
    let snapshot = svc.get_user_permissions(user_id, vec!["student".to_string()], None, None, None);
    let jwt = JwtService::new("dev_32bytes_minimum_secret________________________________");
    let mut store = RefreshService::new();
    let success = login_finish(snapshot, 1, &jwt, &mut store, NOW).unwrap();
    assert_eq!(success.user_id, 650123);
    assert_eq!(success.roles, vec!["student".to_string()]);
    assert_eq!(
        success.perms,
        vec![
            "class:read".to_string(),
            "attend:read".to_string(),
            "grade:read".to_string()
        ]
    );
    // the minted token verifies back to the same identity
    let claims = jwt.verify_token(success.access_token.as_str(), NOW + 1).unwrap();
    assert_eq!(claims.sub, 650123);
    assert_eq!(claims.tenant, 1);
    assert_eq!(claims.roles, vec!["student".to_string()]);
    // the refresh secret opens the session exactly once
    assert!(store.verify_and_rotate(success.refresh_secret.as_str(), NOW + 2).is_ok());
    assert!(store.verify_and_rotate(success.refresh_secret.as_str(), NOW + 3).is_err());
}

#[test]
fn credential_failures_are_indistinguishable() {
    let hash = argon_hash_for_test("right-password");
    // wrong password
    let r1 = verify_credentials(
        Some(ActorRow { id: 1, active: true, password_hash: Some(hash.clone()) }),
        "wrong-password",
    );
    // inactive account
    let r2 = verify_credentials(
        Some(ActorRow { id: 1, active: false, password_hash: Some(hash.clone()) }),
        "right-password",
    );
    // no password configured
    let r3 = verify_credentials(
        Some(ActorRow { id: 1, active: true, password_hash: None }),
        "right-password",
    );
    // actor not found
    let r4 = verify_credentials(None, "right-password");
    for r in [r1, r2, r3, r4] {
        assert_eq!(r.unwrap_err(), AuthError::InvalidCredentials);
    }
    // and the one success case
    let ok = verify_credentials(
        Some(ActorRow { id: 1, active: true, password_hash: Some(hash) }),
        "right-password",
    );
    assert_eq!(ok.unwrap(), 1);
}

#[test]
fn login_validation_rejects_malformed_requests() {
    let base = || LoginRequest {
        actor_type: "personnel".to_string(),
        id: "1234567890123".to_string(),
        password: Some("pw".to_string()),
        otp: None,
        school_id: "s".to_string(),
    };
    assert!(validate_login_request(&base()).is_ok());
    let mut r = base();
    r.actor_type = "".to_string();
    assert!(validate_login_request(&r).is_err());
    let mut r = base();
    r.id = "".to_string();
    assert!(validate_login_request(&r).is_err());
    let mut r = base();
    r.password = Some("".to_string());
    assert!(validate_login_request(&r).is_err());
    let mut r = base();
    r.password = None;
    assert!(validate_login_request(&r).is_err());
    let mut r = base();
    r.password = None;
    r.otp = Some("123456".to_string());
    assert!(validate_login_request(&r).is_ok());
    let mut r = base();
    r.actor_type = "robot".to_string();
    assert!(validate_login_request(&r).is_err());
}

#[test]
fn personnel_lookup_key_is_the_salted_hash() {
    let key = lookup_key(ActorType::Personnel, "1234567890123", "demo_salt");
    assert_eq!(key, authcore::crypto::hash_national_id("1234567890123", "demo_salt"));
    let key_g = lookup_key(ActorType::Guardian, "1234567890123", "demo_salt");
    assert_eq!(key, key_g);
    assert_ne!(key, "1234567890123");
}
