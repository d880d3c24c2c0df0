use authcore::access::AuthUser;
use authcore::config::derive_aes_key;
use authcore::cookies::{
    clear_auth_cookies, create_access_token_cookie, create_csrf_cookie,
    create_refresh_token_cookie, CookieConfig,
};
use authcore::dashboard::{get_dashboard_summary, get_user_type};
use authcore::errors::{ApiError, AuthError};
use authcore::menu::get_menu;

fn student_user() -> AuthUser {
    AuthUser {
        user_id: 650123,
        tenant_id: 1,
        roles: vec!["student".to_string()],
        permissions: vec![
            "class:read".to_string(),
            "attend:read".to_string(),
            "grade:read".to_string(),
        ],
        context: None,
    }
}

#[test]
fn access_checks_answer_from_the_token_alone() {
    let u = student_user();
    assert!(u.has_permission("class:read"));
    assert!(!u.has_permission("class:write"));
    assert!(u.has_role("student"));
    assert!(!u.has_role("admin"));
    assert!(u.has_any_permission(&vec!["grade:write".to_string(), "grade:read".to_string()]));
    assert!(!u.has_any_permission(&vec!["grade:write".to_string(), "user:manage".to_string()]));
    assert!(!u.has_any_permission(&vec![]));
}

#[test]
fn cookies_carry_the_contractual_attributes() {
    let cfg = CookieConfig::from_domain(None);
    assert_eq!(
        create_access_token_cookie("TOKEN", &cfg),
        "at=TOKEN; HttpOnly; SameSite=Lax; Path=/; Max-Age=900"
    );
    assert_eq!(
        create_refresh_token_cookie("SECRET", &cfg),
        "rt=SECRET; HttpOnly; SameSite=Strict; Path=/auth; Max-Age=1209600"
    );
    assert_eq!(
        create_csrf_cookie("CSRF", &cfg),
        "csrf=CSRF; SameSite=Strict; Path=/; Max-Age=3600"
    );
}

#[test]
fn configured_domain_adds_domain_and_secure() {
    let cfg = CookieConfig::from_domain(Some("school.example.org".to_string()));
    assert!(cfg.secure);
    assert_eq!(
        create_access_token_cookie("T", &cfg),
        "at=T; HttpOnly; SameSite=Lax; Path=/; Max-Age=900; Domain=school.example.org; Secure"
    );
}

#[test]
fn clearing_reissues_all_three_empty_with_zero_lifetime() {
    let cfg = CookieConfig::from_domain(None);
    let cleared = clear_auth_cookies(&cfg);
    assert_eq!(
        cleared,
        vec![
            "at=; HttpOnly; SameSite=Lax; Path=/; Max-Age=0".to_string(),
            "rt=; HttpOnly; SameSite=Strict; Path=/auth; Max-Age=0".to_string(),
            "csrf=; SameSite=Strict; Path=/; Max-Age=0".to_string(),
        ]
    );
}

#[test]
fn menu_is_filtered_by_the_token_permissions() {
    let menu = get_menu(&student_user());
    let labels: Vec<&str> = menu.data.iter().map(|i| i.label.as_str()).collect();
    assert_eq!(labels, vec!["Dashboard", "Classes", "Attendance", "Grades"]);
    // an unauthenticated-permission actor sees only the unguarded entry
    let nobody = AuthUser {
        user_id: 1,
        tenant_id: 1,
        roles: vec![],
        permissions: vec![],
        context: None,
    };
    let menu = get_menu(&nobody);
    let labels: Vec<&str> = menu.data.iter().map(|i| i.label.as_str()).collect();
    assert_eq!(labels, vec!["Dashboard"]);
}

#[test]
fn dashboard_kind_follows_role_priority() {
    let mut u = student_user();
    assert_eq!(get_user_type(&u), "student");
    u.roles = vec!["teacher".to_string(), "admin".to_string()];
    assert_eq!(get_user_type(&u), "admin");
    u.roles = vec!["parent".to_string()];
    assert_eq!(get_user_type(&u), "parent");
    u.roles = vec![];
    assert_eq!(get_user_type(&u), "unknown");
}

#[test]
fn dashboard_serves_cards_per_kind() {
    let summary = get_dashboard_summary(&student_user());
    assert_eq!(summary.data.len(), 4);
    assert_eq!(summary.data[0].title, "My Classes Today");
    let nobody = AuthUser {
        user_id: 1,
        tenant_id: 1,
        roles: vec![],
        permissions: vec![],
        context: None,
    };
    assert!(get_dashboard_summary(&nobody).data.is_empty());
}

#[test]
fn problem_payloads_carry_status_and_code() {
    let e = ApiError::unauthorized();
    assert_eq!(e.status, 401);
    assert_eq!(e.code, "UNAUTHORIZED");
    let e = ApiError::bad_request("missing field");
    assert_eq!(e.status, 400);
    assert_eq!(e.detail.as_deref(), Some("missing field"));
    let e = ApiError::validation_error(vec![("id".to_string(), "required".to_string())]);
    assert_eq!(e.code, "VALIDATION_ERROR");
    assert_eq!(e.fields.unwrap().len(), 1);
    // authentication-class failures collapse to one response
    for auth in [
        AuthError::InvalidCredentials,
        AuthError::InvalidToken,
        AuthError::InvalidOrExpired,
        AuthError::ReuseDetected,
    ] {
        let e = ApiError::from_auth_error(auth);
        assert_eq!(e.status, 401);
        assert_eq!(e.code, "UNAUTHORIZED");
    }
    assert_eq!(ApiError::from_auth_error(AuthError::TenantNotFound).status, 404);
    assert_eq!(ApiError::from_auth_error(AuthError::Infrastructure).status, 500);
}

#[test]
fn aes_key_derivation_handles_both_forms() {
    // 64 hex digits decode to the key
    let hexkey = "000102030405060708090a0b0c0d0e0f101112131415161718191a1b1c1d1e1f";
    let key = derive_aes_key(hexkey).unwrap();
    assert_eq!(key.len(), 32);
    assert_eq!(key[0], 0);
    assert_eq!(key[31], 0x1f);
    // 64 characters that are not hex are rejected
    let bad = "zz0102030405060708090a0b0c0d0e0f101112131415161718191a1b1c1d1e1f";
    assert_eq!(derive_aes_key(bad).unwrap_err(), AuthError::Validation);
    // anything else is taken as raw bytes, padded or truncated to 32
    let key = derive_aes_key("short").unwrap();
    assert_eq!(key.len(), 32);
    assert_eq!(&key[..5], "short".as_bytes());
    assert!(key[5..].iter().all(|b| *b == 0));
    let long = "x".repeat(40);
    let key = derive_aes_key(long.as_str()).unwrap();
    assert_eq!(key.len(), 32);
    assert!(key.iter().all(|b| *b == b'x'));
}
