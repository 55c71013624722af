use api_rust::access::{bearer_token, AdminMiddleware, AuthMiddleware};
use api_rust::claims::{Claims, TokenKind};
use api_rust::errors::AppError;
use api_rust::role::UserRoleDto;
use api_rust::session::AuthService;
use api_rust::token::{sign, verify};

fn service() -> AuthService {
    AuthService::new("access-secret".to_string(), "refresh-secret".to_string(), 1, 7).with_hash_cost(4)
}

fn now() -> i64 {
    chrono::Utc::now().timestamp()
}

#[test]
fn register_defaults_to_viewer_and_orders_expiries() {
    let mut s = service();
    let before = now();
    let pair = s.register("alice@example.com", "pw1", "Alice", None).expect("registered");
    assert_eq!(s.users.store.len(), 1);
    let account = s.users.store.get(0);
    assert_eq!(account.role, UserRoleDto::Viewer);
    assert_eq!(account.email, "alice@example.com");
    assert!(pair.expires_in > before);
    assert!(pair.refresh_expires_in > pair.expires_in);
    let claims = verify(&pair.access_token, b"access-secret", TokenKind::Access, pair.expires_in - 1).unwrap();
    assert_eq!(claims.role, UserRoleDto::Viewer);
    assert_eq!(claims.sub, account.id);
    assert_eq!(claims.exp - claims.iat, 3600);
    let refresh = verify(&pair.refresh_token, b"refresh-secret", TokenKind::Refresh, claims.iat).unwrap();
    assert_eq!(refresh.exp - refresh.iat, 7 * 86400);
    assert_ne!(refresh.jti, claims.jti);
}

#[test]
fn second_registration_of_an_address_conflicts_in_any_case() {
    let mut s = service();
    assert!(s.register("alice@example.com", "pw1", "Alice", None).is_ok());
    assert_eq!(s.register("alice@example.com", "pw2", "Other", None).err(), Some(AppError::Conflict));
    assert_eq!(s.register("ALICE@Example.COM", "pw2", "Other", Some(UserRoleDto::Admin)).err(), Some(AppError::Conflict));
    assert_eq!(s.users.store.len(), 1);
    assert!(s.register("bob@example.com", "pw", "Bob", Some(UserRoleDto::Admin)).is_ok());
    assert_eq!(s.users.store.get(1).role, UserRoleDto::Admin);
}

#[test]
fn login_needs_the_address_and_the_password() {
    let mut s = service();
    s.register("alice@example.com", "pw1", "Alice", None).unwrap();
    let pair = s.login("Alice@Example.com", "pw1").expect("logged in");
    let claims = verify(&pair.access_token, b"access-secret", TokenKind::Access, now()).unwrap();
    assert_eq!(claims.email, "alice@example.com");
    assert_eq!(s.login("alice@example.com", "wrong").err(), Some(AppError::Unauthorized));
    assert_eq!(s.login("nobody@example.com", "pw1").err(), Some(AppError::Unauthorized));
}

#[test]
fn failed_logins_fail_the_same_way() {
    let mut s = service();
    s.register("alice@example.com", "pw1", "Alice", None).unwrap();
    let first = s.login("alice@example.com", "bad").err();
    let second = s.login("alice@example.com", "bad").err();
    assert_eq!(first, second);
    assert_eq!(first, Some(AppError::Unauthorized));
}

#[test]
fn refresh_takes_only_refresh_tokens() {
    let mut s = service();
    let pair = s.register("alice@example.com", "pw1", "Alice", None).unwrap();
    assert_eq!(s.refresh_token(&pair.access_token).err(), Some(AppError::Unauthorized));
    let fresh = s.refresh_token(&pair.refresh_token).expect("refreshed");
    let claims = verify(&fresh.access_token, b"access-secret", TokenKind::Access, now()).unwrap();
    assert_eq!(claims.email, "alice@example.com");
    assert_eq!(s.refresh_token("garbage").err(), Some(AppError::Unauthorized));
}

#[test]
fn refresh_refuses_an_access_token_under_a_shared_secret() {
    let s = AuthService::new("same".to_string(), "same".to_string(), 1, 7);
    let claims = Claims {
        sub: "u".to_string(),
        email: "a@b.c".to_string(),
        role: UserRoleDto::Viewer,
        iat: now(),
        exp: now() + 3600,
        jti: "j".to_string(),
        kind: TokenKind::Access,
    };
    let token = sign(&claims, b"same").unwrap();
    assert_eq!(s.refresh_at(&token, now(), "a".to_string(), "b".to_string()).err(), Some(AppError::Unauthorized));
}

#[test]
fn issue_pair_at_a_fixed_time() {
    let s = service();
    let pair = s
        .issue_pair("id-1", "a@b.c", UserRoleDto::Admin, 1000, "ja".to_string(), "jr".to_string())
        .unwrap();
    assert_eq!(pair.expires_in, 4600);
    assert_eq!(pair.refresh_expires_in, 1000 + 7 * 86400);
    let c = verify(&pair.access_token, b"access-secret", TokenKind::Access, 1000).unwrap();
    assert_eq!((c.sub.as_str(), c.jti.as_str(), c.iat, c.exp), ("id-1", "ja", 1000, 4600));
    assert_eq!(
        s.issue_pair("id-1", "a@b.c", UserRoleDto::Admin, i64::MAX - 10, "ja".to_string(), "jr".to_string()).err(),
        Some(AppError::Internal)
    );
}

fn token_for(role: UserRoleDto, s: &AuthService, at: i64) -> String {
    s.issue_pair("id", "x@y.z", role, at, "a".to_string(), "b".to_string()).unwrap().access_token
}

#[test]
fn role_guard_forbids_viewers_and_admits_admins() {
    let s = service();
    let t = now();
    let viewer = format!("Bearer {}", token_for(UserRoleDto::Viewer, &s, t));
    let admin = format!("Bearer {}", token_for(UserRoleDto::Admin, &s, t));
    assert_eq!(s.authorize_at(Some(&viewer), None, Some(UserRoleDto::Admin), t).err(), Some(AppError::Forbidden));
    let ok = s.authorize_at(Some(&admin), None, Some(UserRoleDto::Admin), t).expect("admitted");
    assert_eq!(ok.role, UserRoleDto::Admin);
    assert!(s.authorize_at(Some(&admin), None, Some(UserRoleDto::Viewer), t).is_ok());
    assert!(s.authorize_at(Some(&viewer), None, None, t).is_ok());
    assert_eq!(AdminMiddleware::admin(&s, Some(&viewer), None).err(), Some(AppError::Forbidden));
    assert!(AdminMiddleware::admin(&s, Some(&admin), None).is_ok());
    assert!(AuthMiddleware::auth(&s, Some(&viewer), None).is_ok());
}

#[test]
fn guard_refuses_missing_expired_and_refresh_tokens() {
    let mut s = service();
    let t = now();
    assert_eq!(s.authorize_at(None, None, None, t).err(), Some(AppError::Unauthorized));
    let token = token_for(UserRoleDto::Viewer, &s, t);
    assert_eq!(s.authorize_at(None, Some(&token), None, t + 3600).err(), Some(AppError::Unauthorized));
    assert!(s.authorize_at(None, Some(&token), None, t + 3599).is_ok());
    let pair = s.register("a@b.c", "pw", "A", None).unwrap();
    let bearer = format!("Bearer {}", pair.refresh_token);
    assert_eq!(AuthMiddleware::auth(&s, Some(&bearer), None).err(), Some(AppError::Unauthorized));
}

#[test]
fn bearer_header_wins_over_cookie() {
    assert_eq!(bearer_token(Some("Bearer abc"), Some("cookie")), Some("abc".to_string()));
    assert_eq!(bearer_token(Some("Basic abc"), Some("cookie")), Some("cookie".to_string()));
    assert_eq!(bearer_token(Some("Bearer "), None), Some("".to_string()));
    assert_eq!(bearer_token(Some("bearer abc"), None), None);
    assert_eq!(bearer_token(None, None), None);
}

#[test]
fn access_check_refuses_a_refresh_token_under_a_shared_secret() {
    let mut s = AuthService::new("same".to_string(), "same".to_string(), 1, 7).with_hash_cost(4);
    let pair = s.register("a@b.c", "pw", "A", None).unwrap();
    assert_eq!(s.validate_token(&pair.refresh_token).err(), Some(AppError::Unauthorized));
    assert!(s.validate_token(&pair.access_token).is_ok());
}
