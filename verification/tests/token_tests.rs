use authcore::claims::{ActorContext, Claims};
use authcore::token::JwtService;

fn sample_claims(now: i64) -> Claims {
    let roles = vec!["teacher".to_string(), "admin".to_string()];
    let perms = vec!["class:read".to_string(), "grade:write".to_string()];
    let ctx = Some(ActorContext::Teacher {
        personnel_no: "P-100".to_string(),
        department_id: Some(77),
        class_ids: vec!["class-1".to_string(), "class-2".to_string()],
    });
    Claims::new(42, 1, roles, perms, ctx, now)
}

#[test]
fn token_round_trip_returns_claims() {
    let jwt = JwtService::new("dev_32bytes_minimum_secret________________________________");
    let now: i64 = 1_700_000_000;
    let claims = sample_claims(now);
    let token = jwt.create_token(&claims).unwrap();
    let back = jwt.verify_token(token.as_str(), now + 10).unwrap();
    assert_eq!(back.sub, 42);
    assert_eq!(back.tenant, 1);
    assert_eq!(back.iat, now);
    assert_eq!(back.exp, now + 900);
    assert_eq!(back.roles, vec!["teacher".to_string(), "admin".to_string()]);
    assert_eq!(
        back.perms,
        vec!["class:read".to_string(), "grade:write".to_string()]
    );
    match back.ctx {
        Some(ActorContext::Teacher {
            personnel_no,
            department_id,
            class_ids,
        }) => {
            assert_eq!(personnel_no, "P-100");
            assert_eq!(department_id, Some(77));
            assert_eq!(class_ids, vec!["class-1".to_string(), "class-2".to_string()]);
        }
        _ => panic!("wrong context"),
    }
}

#[test]
fn token_fails_once_expired() {
    let jwt = JwtService::new("dev_32bytes_minimum_secret________________________________");
    let now: i64 = 1_700_000_000;
    let claims = sample_claims(now);
    let token = jwt.create_token(&claims).unwrap();
    // the boundary is hard: valid one second before, invalid at expiry
    assert!(jwt.verify_token(token.as_str(), now + 899).is_ok());
    assert!(jwt.verify_token(token.as_str(), now + 900).is_err());
    assert!(jwt.verify_token(token.as_str(), now + 10_000).is_err());
}

#[test]
fn tampered_token_is_rejected() {
    let jwt = JwtService::new("dev_32bytes_minimum_secret________________________________");
    let now: i64 = 1_700_000_000;
    let claims = sample_claims(now);
    let token = jwt.create_token(&claims).unwrap();
    // flip one character of the payload
    let mut chars: Vec<char> = token.chars().collect();
    chars[0] = if chars[0] == '0' { '1' } else { '0' };
    let tampered: String = chars.iter().collect();
    assert!(jwt.verify_token(tampered.as_str(), now).is_err());
    // truncate the signature
    let shorter: String = token.chars().take(token.chars().count() - 1).collect();
    assert!(jwt.verify_token(shorter.as_str(), now).is_err());
    // garbage is rejected, not misparsed
    assert!(jwt.verify_token("not-a-token", now).is_err());
    assert!(jwt.verify_token("", now).is_err());
}

#[test]
fn token_from_other_key_is_rejected() {
    let jwt_a = JwtService::new("key-a-key-a-key-a-key-a-key-a-key-a-key-a");
    let jwt_b = JwtService::new("key-b-key-b-key-b-key-b-key-b-key-b-key-b");
    let now: i64 = 1_700_000_000;
    let claims = sample_claims(now);
    let token = jwt_a.create_token(&claims).unwrap();
    assert!(jwt_b.verify_token(token.as_str(), now).is_err());
    assert!(jwt_a.verify_token(token.as_str(), now).is_ok());
}

#[test]
fn claims_parse_rejects_trailing_input() {
    let jwt = JwtService::new("some-secret-some-secret-some-secret-1234");
    let now: i64 = 1_700_000_000;
    let claims = Claims::new(7, 1, vec![], vec![], None, now);
    let token = jwt.create_token(&claims).unwrap();
    let back = jwt.verify_token(token.as_str(), now).unwrap();
    assert_eq!(back.sub, 7);
    assert!(back.roles.is_empty());
    assert!(back.perms.is_empty());
    assert!(back.ctx.is_none());
}

#[test]
fn boundary_values_round_trip() {
    let jwt = JwtService::new("k");
    let now: i64 = 0;
    let claims = Claims::new(u128::MAX, u128::MAX - 1, vec![String::new()], vec![], None, now);
    let token = jwt.create_token(&claims).unwrap();
    let back = jwt.verify_token(token.as_str(), 0).unwrap();
    assert_eq!(back.sub, u128::MAX);
    assert_eq!(back.tenant, u128::MAX - 1);
    assert_eq!(back.iat, 0);
    assert_eq!(back.exp, 900);
    // an empty role code survives the length-prefixed encoding
    assert_eq!(back.roles, vec![String::new()]);
}

#[test]
fn guardian_and_student_contexts_round_trip() {
    let jwt = JwtService::new("another-secret");
    let now: i64 = 1_700_000_000;
    let claims = Claims::new(
        3,
        1,
        vec!["parent".to_string()],
        vec![],
        Some(ActorContext::Guardian { children: vec![10, 20, 30] }),
        now,
    );
    let token = jwt.create_token(&claims).unwrap();
    let back = jwt.verify_token(token.as_str(), now).unwrap();
    match back.ctx {
        Some(ActorContext::Guardian { children }) => assert_eq!(children, vec![10, 20, 30]),
        _ => panic!("guardian context expected"),
    }
    let claims = Claims::new(
        4,
        1,
        vec![],
        vec![],
        Some(ActorContext::Student { student_code: "S;3:x.".to_string(), class_id: None }),
        now,
    );
    let token = jwt.create_token(&claims).unwrap();
    let back = jwt.verify_token(token.as_str(), now).unwrap();
    match back.ctx {
        Some(ActorContext::Student { student_code, class_id }) => {
            // a code containing the encoding's own delimiters survives
            assert_eq!(student_code, "S;3:x.");
            assert_eq!(class_id, None);
        }
        _ => panic!("student context expected"),
    }
}
