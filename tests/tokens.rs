use api_rust::claims::{Claims, TokenKind};
use api_rust::role::UserRoleDto;
use api_rust::token::{sign, verify, TokenError};

fn sample(kind: TokenKind) -> Claims {
    Claims {
        sub: "user-1".to_string(),
        email: "alice@example.com".to_string(),
        role: UserRoleDto::Viewer,
        iat: 1_700_000_000,
        exp: 1_700_003_600,
        jti: "jti-1".to_string(),
        kind,
    }
}

fn same(a: &Claims, b: &Claims) -> bool {
    a.sub == b.sub
        && a.email == b.email
        && a.role == b.role
        && a.iat == b.iat
        && a.exp == b.exp
        && a.jti == b.jti
        && a.kind == b.kind
}

#[test]
fn claims_text_is_canonical_json() {
    let c = sample(TokenKind::Access);
    assert_eq!(
        c.to_text(),
        "{\"sub\":\"user-1\",\"email\":\"alice@example.com\",\"role\":\"viewer\",\"iat\":1700000000,\"exp\":1700003600,\"jti\":\"jti-1\",\"token_type\":\"access\"}"
    );
}

#[test]
fn claims_text_round_trips_escapes_and_extremes() {
    let c = Claims {
        sub: "a\"b\\c\nd\u{1}é😀".to_string(),
        email: "".to_string(),
        role: UserRoleDto::Admin,
        iat: i64::MIN,
        exp: i64::MAX,
        jti: "\t".to_string(),
        kind: TokenKind::Refresh,
    };
    let text = c.to_text();
    assert!(text.contains("a\\\"b\\\\c\\u000ad\\u0001é😀"));
    assert!(text.contains("\"iat\":-9223372036854775808"));
    let back = Claims::from_text(&text).expect("parses");
    assert!(same(&back, &c));
    let value: serde_json::Value = serde_json::from_str(&text).expect("valid JSON");
    assert_eq!(value["sub"], "a\"b\\c\nd\u{1}é😀");
}

#[test]
fn claims_text_refuses_other_layouts() {
    let good = sample(TokenKind::Access).to_text();
    assert!(Claims::from_text(&good).is_some());
    assert!(Claims::from_text(&good.replace(":1700000000", ": 1700000000")).is_none());
    assert!(Claims::from_text(&good.replace(":1700000000", ":01700000000")).is_none());
    assert!(Claims::from_text(&good.replace(":1700000000", ":-0")).is_none());
    assert!(Claims::from_text(&good.replace(":1700000000", ":9223372036854775808")).is_none());
    assert!(Claims::from_text(&good.replace("\"viewer\"", "\"owner\"")).is_none());
    assert!(Claims::from_text(&format!("{} ", good)).is_none());
    assert!(Claims::from_text("").is_none());
}

#[test]
fn sign_then_verify_gives_back_every_claim() {
    let c = sample(TokenKind::Access);
    let token = sign(&c, b"access-secret").expect("signed");
    assert_eq!(token.split('.').count(), 3);
    let back = verify(&token, b"access-secret", TokenKind::Access, c.iat).expect("accepted");
    assert!(same(&back, &c));
}

#[test]
fn verify_refuses_other_secret_kind_and_expired() {
    let c = sample(TokenKind::Access);
    let token = sign(&c, b"access-secret").unwrap();
    assert_eq!(verify(&token, b"other-secret", TokenKind::Access, c.iat).err(), Some(TokenError::InvalidSignature));
    assert_eq!(verify(&token, b"access-secret", TokenKind::Refresh, c.iat).err(), Some(TokenError::WrongKind));
    assert_eq!(verify(&token, b"access-secret", TokenKind::Access, c.exp).err(), Some(TokenError::Expired));
    assert!(verify(&token, b"access-secret", TokenKind::Access, c.exp - 1).is_ok());
    assert_eq!(verify("not.a.token", b"access-secret", TokenKind::Access, 0).err(), Some(TokenError::InvalidSignature));
}

#[test]
fn access_token_expires_after_an_hour() {
    let c = sample(TokenKind::Access);
    let token = sign(&c, b"k").unwrap();
    let later = c.iat + 61 * 60;
    assert_eq!(verify(&token, b"k", TokenKind::Access, later).err(), Some(TokenError::Expired));
}

#[test]
fn verify_refuses_a_signed_payload_that_is_not_claims() {
    let key = jsonwebtoken::EncodingKey::from_secret(b"k");
    let token = jsonwebtoken::encode(&jsonwebtoken::Header::default(), &serde_json::Map::new(), &key).unwrap();
    assert_eq!(verify(&token, b"k", TokenKind::Access, 0).err(), Some(TokenError::Malformed));
}

#[test]
fn role_names_parse_without_case() {
    assert_eq!(UserRoleDto::from("ADMIN"), UserRoleDto::Admin);
    assert_eq!(UserRoleDto::from("Admin"), UserRoleDto::Admin);
    assert_eq!(UserRoleDto::from("viewer"), UserRoleDto::Viewer);
    assert_eq!(UserRoleDto::from("user"), UserRoleDto::Viewer);
    assert_eq!(UserRoleDto::Admin.to_string(), "admin");
    assert_eq!(UserRoleDto::Viewer.to_string(), "viewer");
}
