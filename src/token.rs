//! Signing and verification of compact HS256 tokens that carry claims.

use vstd::prelude::*;
use crate::claims::{claims_text, Claims, ClaimsModel, TokenKind};

verus! {

/// The compact HS256 token that signs `payload` with `secret`.
pub uninterp spec fn hs256_token(payload: Seq<char>, secret: Seq<u8>) -> Seq<char>;

/// The payload that `token` carries when its HS256 signature checks out
/// under `secret`; `None` for a token that is not well formed or whose
/// signature does not match.
pub uninterp spec fn hs256_payload(token: Seq<char>, secret: Seq<u8>) -> Option<Seq<char>>;

/// Whether signing `payload` with `secret` goes through: the payload must
/// read as JSON.
pub uninterp spec fn hs256_sealable(payload: Seq<char>, secret: Seq<u8>) -> bool;

/// Relies on `jsonwebtoken::encode` with the default HS256 header, the
/// payload written verbatim through serde_json's `RawValue`: the token is a
/// function of payload and secret. For a claims text (distinct keys, string
/// and integer values only) `jsonwebtoken::decode` under the same secret
/// hands the payload back unchanged.
#[verifier::external_body]
fn seal(payload: &str, secret: &[u8]) -> (r: Option<String>)
    requires
        exists|c: ClaimsModel| #[trigger] claims_text(c) == payload@,
    ensures
        r is Some <==> hs256_sealable(payload@, secret@),
        r matches Some(t) ==> t@ == hs256_token(payload@, secret@) && hs256_payload(t@, secret@) == Some(payload@),
{
    let raw = serde_json::value::RawValue::from_string(payload.to_string()).ok()?;
    let key = jsonwebtoken::EncodingKey::from_secret(secret);
    jsonwebtoken::encode(&jsonwebtoken::Header::default(), &raw, &key).ok()
}

/// Relies on `jsonwebtoken::decode` with an HS256 key made from `secret`,
/// the signature checked and no time, audience or required-claim checks:
/// the payload text as serde_json's `RawValue` keeps it.
#[verifier::external_body]
fn open(token: &str, secret: &[u8]) -> (r: Option<String>)
    ensures
        r matches Some(p) ==> hs256_payload(token@, secret@) == Some(p@),
        r is None ==> hs256_payload(token@, secret@) is None,
{
    let mut v = jsonwebtoken::Validation::new(jsonwebtoken::Algorithm::HS256);
    v.validate_exp = false;
    v.validate_aud = false;
    v.required_spec_claims.clear();
    let key = jsonwebtoken::DecodingKey::from_secret(secret);
    let data = jsonwebtoken::decode::<Box<serde_json::value::RawValue>>(token, &key, &v).ok()?;
    Some(data.claims.get().to_string())
}

/// Why a token was refused.
#[derive(Debug, Clone, Copy, PartialEq, Eq, Structural)]
pub enum TokenError {
    /// The token is not well formed or its signature does not match.
    InvalidSignature,
    /// The token's expiry time has come.
    Expired,
    /// The token is of the other kind.
    WrongKind,
    /// The signed payload is not claims text.
    Malformed,
}

/// `token` was signed over the text of `c` with `secret`.
pub open spec fn signed_by(token: Seq<char>, c: ClaimsModel, secret: Seq<u8>) -> bool {
    token == hs256_token(claims_text(c), secret) && hs256_payload(token, secret) == Some(claims_text(c))
}

/// What verification decides on intact claims: refused once `now` reaches
/// the expiry time, then refused when the kind is not the expected one.
pub open spec fn check_claims(c: ClaimsModel, kind: TokenKind, now: i64) -> Result<ClaimsModel, TokenError> {
    if now >= c.exp {
        Err(TokenError::Expired)
    } else if c.kind != kind {
        Err(TokenError::WrongKind)
    } else {
        Ok(c)
    }
}

/// What verifying `token` under `secret` for `kind` at time `now` returns.
pub open spec fn verify_post(
    token: Seq<char>,
    secret: Seq<u8>,
    kind: TokenKind,
    now: i64,
    r: Result<ClaimsModel, TokenError>,
) -> bool {
    match hs256_payload(token, secret) {
        None => r == Err::<ClaimsModel, TokenError>(TokenError::InvalidSignature),
        Some(p) => {
            &&& forall|m: ClaimsModel| #[trigger] claims_text(m) == p ==> r == check_claims(m, kind, now)
            &&& (r == Err::<ClaimsModel, TokenError>(TokenError::Malformed) <==> !exists|m: ClaimsModel|
                #[trigger] claims_text(m) == p)
        },
    }
}

/// Verification has one outcome per token, secret, kind and time.
pub proof fn lemma_verify_post_unique(
    token: Seq<char>,
    secret: Seq<u8>,
    kind: TokenKind,
    now: i64,
    v1: Result<ClaimsModel, TokenError>,
    v2: Result<ClaimsModel, TokenError>,
)
    requires
        verify_post(token, secret, kind, now, v1),
        verify_post(token, secret, kind, now, v2),
    ensures
        v1 == v2,
{
    if let Some(p) = hs256_payload(token, secret) {
        if exists|m: ClaimsModel| #[trigger] claims_text(m) == p {
            let m = choose|m: ClaimsModel| #[trigger] claims_text(m) == p;
            assert(v1 == check_claims(m, kind, now));
        }
    }
}

/// The model of a verification result.
pub open spec fn result_model(r: Result<Claims, TokenError>) -> Result<ClaimsModel, TokenError> {
    match r {
        Ok(c) => Ok(c@),
        Err(e) => Err(e),
    }
}

/// Signs the claims with `secret`; `None` when the signing library refuses.
pub fn sign(claims: &Claims, secret: &[u8]) -> (r: Option<String>)
    ensures
        r is Some <==> hs256_sealable(claims_text(claims@), secret@),
        r matches Some(t) ==> signed_by(t@, claims@, secret@),
{
    let text = claims.to_text();
    assert(claims_text(claims@) == text@);
    seal(text.as_str(), secret)
}

/// Verifies `token` under `secret` as a token of `kind` at time `now`
/// (epoch seconds): signature first, then the claims text, the expiry and
/// the kind.
pub fn verify(token: &str, secret: &[u8], kind: TokenKind, now: i64) -> (r: Result<Claims, TokenError>)
    ensures
        verify_post(token@, secret@, kind, now, result_model(r)),
{
    let payload = match open(token, secret) {
        Some(p) => p,
        None => return Err(TokenError::InvalidSignature),
    };
    let claims = match Claims::from_text(payload.as_str()) {
        Some(c) => c,
        None => return Err(TokenError::Malformed),
    };
    if now >= claims.exp {
        Err(TokenError::Expired)
    } else if claims.kind != kind {
        Err(TokenError::WrongKind)
    } else {
        Ok(claims)
    }
}

/// Signing then verifying under the same secret gives back every claim
/// while the token is unexpired and the kind matches; it refuses the token
/// once `now` reaches the expiry time, and refuses it for the other kind.
pub proof fn lemma_sign_verify(
    token: Seq<char>,
    c: ClaimsModel,
    secret: Seq<u8>,
    kind: TokenKind,
    now: i64,
    r: Result<ClaimsModel, TokenError>,
)
    requires
        signed_by(token, c, secret),
        verify_post(token, secret, kind, now, r),
    ensures
        r == check_claims(c, kind, now),
        now < c.exp && kind == c.kind ==> r == Ok::<ClaimsModel, TokenError>(c),
        now >= c.exp ==> r == Err::<ClaimsModel, TokenError>(TokenError::Expired),
        now < c.exp && kind != c.kind ==> r == Err::<ClaimsModel, TokenError>(TokenError::WrongKind),
{
    assert(claims_text(c) == claims_text(c));
}

} // verus!
