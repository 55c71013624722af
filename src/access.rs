//! Decisions of the access middleware: where the token comes from, and
//! whether its claims open a route.

use vstd::prelude::*;
use crate::claims::{Claims, ClaimsModel, TokenKind};
use crate::clock::now_seconds;
use crate::errors::AppError;
use crate::role::UserRoleDto;
use crate::session::AuthService;
use crate::text::{chars_of, has_at, text_of};
use crate::token::{lemma_verify_post_unique, result_model, verify, verify_post, TokenError};

verus! {

/// The text of an optional string.
pub open spec fn opt_text(o: Option<&str>) -> Option<Seq<char>> {
    match o {
        Some(s) => Some(s@),
        None => None,
    }
}

/// The token of an `Authorization` header value of the form `Bearer <token>`.
pub open spec fn bearer_of(header: Seq<char>) -> Option<Seq<char>> {
    if header.len() >= 7 && header.subrange(0, 7) == "Bearer "@ {
        Some(header.subrange(7, header.len() as int))
    } else {
        None
    }
}

/// The token of a request: from a bearer `Authorization` header, else from
/// the access-token cookie.
pub open spec fn token_from(authorization: Option<Seq<char>>, cookie: Option<Seq<char>>) -> Option<Seq<char>> {
    match authorization {
        Some(h) => match bearer_of(h) {
            Some(t) => Some(t),
            None => cookie,
        },
        None => cookie,
    }
}

/// Whether claims of role `have` open a route that asks for `required`:
/// the administrator passes every role check.
pub open spec fn role_allows(have: UserRoleDto, required: UserRoleDto) -> bool {
    have == required || have == UserRoleDto::Admin
}

/// What the guard decides on verified claims `m` for a route that asks for
/// `required`, if anything.
pub open spec fn guard_decision(m: ClaimsModel, required: Option<UserRoleDto>) -> Result<ClaimsModel, AppError> {
    match required {
        Some(q) => if role_allows(m.role, q) {
            Ok(m)
        } else {
            Err(AppError::Forbidden)
        },
        None => Ok(m),
    }
}

/// What the guard returns for the request token `token` under the access
/// secret `secret` at `now`, for a route that asks for `required`.
pub open spec fn access_post(
    secret: Seq<u8>,
    token: Option<Seq<char>>,
    required: Option<UserRoleDto>,
    now: i64,
    r: Result<ClaimsModel, AppError>,
) -> bool {
    &&& token is None ==> r == Err::<ClaimsModel, AppError>(AppError::Unauthorized)
    &&& forall|t: Seq<char>, v: Result<ClaimsModel, TokenError>|
        token == Some(t) && #[trigger] verify_post(t, secret, TokenKind::Access, now, v) ==> match v {
            Err(_) => r == Err::<ClaimsModel, AppError>(AppError::Unauthorized),
            Ok(m) => r == guard_decision(m, required),
        }
}

/// The model of a guard result.
pub open spec fn guard_model(r: Result<Claims, AppError>) -> Result<ClaimsModel, AppError> {
    match r {
        Ok(c) => Ok(c@),
        Err(e) => Err(e),
    }
}

/// The characters of `v` from position `from` on, as a string.
fn tail_text(v: &[char], from: usize) -> (r: String)
    requires
        from <= v@.len(),
    ensures
        r@ == v@.subrange(from as int, v@.len() as int),
{
    let mut out: Vec<char> = Vec::new();
    let mut i: usize = from;
    while i < v.len()
        invariant
            from <= i <= v@.len(),
            out@ == v@.subrange(from as int, i as int),
        decreases v@.len() - i,
    {
        out.push(v[i]);
        assert(out@ =~= v@.subrange(from as int, i + 1));
        i += 1;
    }
    text_of(out.as_slice())
}

/// The token of a request, from its `Authorization` header value and its
/// access-token cookie.
pub fn bearer_token(authorization: Option<&str>, cookie: Option<&str>) -> (r: Option<String>)
    ensures
        r matches Some(t) ==> token_from(opt_text(authorization), opt_text(cookie)) == Some(t@),
        r is None ==> token_from(opt_text(authorization), opt_text(cookie)) is None,
{
    if let Some(h) = authorization {
        let hv = chars_of(h);
        let prefix = chars_of("Bearer ");
        proof {
            reveal_strlit("Bearer ");
        }
        if has_at(hv.as_slice(), 0, prefix.as_slice()) {
            return Some(tail_text(hv.as_slice(), 7));
        }
    }
    match cookie {
        Some(c) => Some(c.to_owned()),
        None => None,
    }
}

impl AuthService {
    /// The guard of protected routes at time `now`: a request without a token,
    /// or whose token does not verify as an access token, is `Unauthorized`;
    /// one whose role is not enough for `required` is `Forbidden`.
    pub fn authorize_at(
        &self,
        authorization: Option<&str>,
        cookie: Option<&str>,
        required: Option<UserRoleDto>,
        now: i64,
    ) -> (r: Result<Claims, AppError>)
        ensures
            access_post(self.access_secret@, token_from(opt_text(authorization), opt_text(cookie)), required, now, guard_model(r)),
    {
        let token = match bearer_token(authorization, cookie) {
            Some(t) => t,
            None => return Err(AppError::Unauthorized),
        };
        let v = verify(token.as_str(), self.access_secret.as_slice(), TokenKind::Access, now);
        let ghost vm = result_model(v);
        proof {
            assert(verify_post(token@, self.access_secret@, TokenKind::Access, now, vm));
        }
        match v {
            Err(e) => {
                proof {
                    assert(vm == Err::<ClaimsModel, TokenError>(e));
                    assert(token_from(opt_text(authorization), opt_text(cookie)) == Some(token@));
                    assert forall|w: Result<ClaimsModel, TokenError>| #[trigger] verify_post(token@, self.access_secret@, TokenKind::Access, now, w) implies w is Err by {
                        lemma_verify_post_unique(token@, self.access_secret@, TokenKind::Access, now, w, vm);
                    }
                }
                Err(AppError::Unauthorized)
            },
            Ok(c) => {
                if let Some(q) = required {
                    if c.role != q && c.role != UserRoleDto::Admin {
                        proof {
                            assert(!role_allows(c.role, q));
                            assert(vm == Ok::<ClaimsModel, TokenError>(c@));
                            assert forall|w: Result<ClaimsModel, TokenError>| #[trigger] verify_post(token@, self.access_secret@, TokenKind::Access, now, w) implies w == vm by {
                                lemma_verify_post_unique(token@, self.access_secret@, TokenKind::Access, now, w, vm);
                            }
                        }
                        return Err(AppError::Forbidden);
                    }
                }
                proof {
                    assert(vm == Ok::<ClaimsModel, TokenError>(c@));
                    if let Some(q) = required {
                        assert(role_allows(c.role, q));
                    }
                    assert forall|w: Result<ClaimsModel, TokenError>| #[trigger] verify_post(token@, self.access_secret@, TokenKind::Access, now, w) implies w == vm by {
                        lemma_verify_post_unique(token@, self.access_secret@, TokenKind::Access, now, w, vm);
                    }
                }
                Ok(c)
            },
        }
    }
}

/// The guard of routes open to every signed-in account.
pub struct AuthMiddleware;

impl AuthMiddleware {
    /// Lets a request through with the claims of its access token, checked now.
    pub fn auth(service: &AuthService, authorization: Option<&str>, cookie: Option<&str>) -> (r: Result<Claims, AppError>)
        ensures
            exists|now: i64| #[trigger] access_post(service.access_secret@, token_from(opt_text(authorization), opt_text(cookie)), None, now, guard_model(r)),
    {
        let now = now_seconds();
        let r = service.authorize_at(authorization, cookie, None, now);
        assert(access_post(service.access_secret@, token_from(opt_text(authorization), opt_text(cookie)), None, now, guard_model(r)));
        r
    }
}

/// The guard of the administration routes.
pub struct AdminMiddleware;

impl AdminMiddleware {
    /// Lets a request through only with an unexpired administrator access
    /// token, checked now.
    pub fn admin(service: &AuthService, authorization: Option<&str>, cookie: Option<&str>) -> (r: Result<Claims, AppError>)
        ensures
            exists|now: i64| #[trigger] access_post(service.access_secret@, token_from(opt_text(authorization), opt_text(cookie)), Some(UserRoleDto::Admin), now, guard_model(r)),
    {
        let now = now_seconds();
        let r = service.authorize_at(authorization, cookie, Some(UserRoleDto::Admin), now);
        assert(access_post(service.access_secret@, token_from(opt_text(authorization), opt_text(cookie)), Some(UserRoleDto::Admin), now, guard_model(r)));
        r
    }
}

/// A role-guarded route lets through a token that verifies as an access
/// token exactly when its role is the required one or the administrator's;
/// any other verified token is `Forbidden`.
pub proof fn lemma_role_guard(
    secret: Seq<u8>,
    token: Seq<char>,
    m: ClaimsModel,
    required: UserRoleDto,
    now: i64,
    r: Result<ClaimsModel, AppError>,
)
    requires
        verify_post(token, secret, TokenKind::Access, now, Ok(m)),
        access_post(secret, Some(token), Some(required), now, r),
    ensures
        role_allows(m.role, required) ==> r == Ok::<ClaimsModel, AppError>(m),
        !role_allows(m.role, required) ==> r == Err::<ClaimsModel, AppError>(AppError::Forbidden),
{
    let v = Ok::<ClaimsModel, TokenError>(m);
    assert(verify_post(token, secret, TokenKind::Access, now, v));
}

} // verus!
