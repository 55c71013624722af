//! The session issuer: registration, login and token refresh.

use vstd::prelude::*;
use crate::claims::{claims_text, Claims, ClaimsModel, TokenKind};
use crate::access::guard_model;
use crate::clock::{fresh_id, now_seconds};
use crate::errors::AppError;
use crate::password::{hash_password, password_matches, verify_password};
use crate::role::UserRoleDto;
use crate::store::{has_email, has_id, same_email, CredentialStore, User, UserModel};
use crate::users::UserService;
use crate::token::{check_claims, hs256_payload, hs256_sealable, result_model, sign, signed_by, verify, verify_post};

verus! {

/// The two tokens handed to a client after it authenticated. The expiry
/// fields hold absolute expiry times in epoch seconds.
#[derive(Debug)]
pub struct TokenPair {
    pub access_token: String,
    pub refresh_token: String,
    pub expires_in: i64,
    pub refresh_expires_in: i64,
}

/// The claims of a token issued at `now` for `lifetime` seconds.
pub open spec fn token_claims(
    sub: Seq<char>,
    email: Seq<char>,
    role: UserRoleDto,
    now: i64,
    lifetime: i64,
    jti: Seq<char>,
    kind: TokenKind,
) -> ClaimsModel {
    ClaimsModel { sub, email, role, iat: now, exp: (now + lifetime) as i64, jti, kind }
}

/// Whether some account of `users` has the e-mail address `email` (case
/// ignored) and a digest that `password` matches.
pub open spec fn credentials_valid(users: Seq<UserModel>, email: Seq<char>, password: Seq<char>) -> bool {
    exists|i: int|
        0 <= i < users.len() && #[trigger] same_email(users[i].email, email) && password_matches(password, users[i].password_hash)
}

/// Issues tokens and keeps the accounts.
pub struct AuthService {
    /// Secret of the access tokens.
    pub access_secret: Vec<u8>,
    /// Secret of the refresh tokens.
    pub refresh_secret: Vec<u8>,
    /// Lifetime of an access token, seconds.
    pub access_lifetime: i64,
    /// Lifetime of a refresh token, seconds.
    pub refresh_lifetime: i64,
    /// bcrypt cost of new password digests.
    pub hash_cost: u32,
    /// The accounts.
    pub users: UserService,
}

impl AuthService {
    /// The service's invariant: positive lifetimes and a well-formed store.
    pub open spec fn wf(&self) -> bool {
        &&& self.access_lifetime > 0
        &&& self.refresh_lifetime > 0
        &&& self.users.store.wf()
    }

    /// Whether `p` holds the tokens issued at `now` to the account `sub`
    /// with the given token identifiers.
    pub open spec fn issued(
        &self,
        p: TokenPair,
        sub: Seq<char>,
        email: Seq<char>,
        role: UserRoleDto,
        now: i64,
        access_jti: Seq<char>,
        refresh_jti: Seq<char>,
    ) -> bool {
        &&& signed_by(p.access_token@, token_claims(sub, email, role, now, self.access_lifetime, access_jti, TokenKind::Access), self.access_secret@)
        &&& signed_by(p.refresh_token@, token_claims(sub, email, role, now, self.refresh_lifetime, refresh_jti, TokenKind::Refresh), self.refresh_secret@)
        &&& p.expires_in == now + self.access_lifetime
        &&& p.refresh_expires_in == now + self.refresh_lifetime
    }

    /// Whether a pair can be issued at `now` to the account `sub` with the
    /// given token identifiers: both expiry times fit, and the signing
    /// library takes both claims texts.
    pub open spec fn issuable(
        &self,
        sub: Seq<char>,
        email: Seq<char>,
        role: UserRoleDto,
        now: i64,
        access_jti: Seq<char>,
        refresh_jti: Seq<char>,
    ) -> bool {
        &&& i64::MIN <= now + self.access_lifetime <= i64::MAX
        &&& i64::MIN <= now + self.refresh_lifetime <= i64::MAX
        &&& hs256_sealable(claims_text(token_claims(sub, email, role, now, self.access_lifetime, access_jti, TokenKind::Access)), self.access_secret@)
        &&& hs256_sealable(claims_text(token_claims(sub, email, role, now, self.refresh_lifetime, refresh_jti, TokenKind::Refresh)), self.refresh_secret@)
    }

    /// Whether `p` holds tokens issued at some time to the account `sub`.
    pub open spec fn issued_to(&self, p: TokenPair, sub: Seq<char>, email: Seq<char>, role: UserRoleDto) -> bool {
        exists|now: i64, a: Seq<char>, b: Seq<char>| #[trigger] self.issued(p, sub, email, role, now, a, b)
    }

    /// A service with the given secrets and lifetimes (hours for access
    /// tokens, days for refresh tokens), bcrypt cost 12 and no accounts.
    pub fn new(access_secret: String, refresh_secret: String, access_expiry_hours: u64, refresh_expiry_days: u64) -> (r: AuthService)
        requires
            1 <= access_expiry_hours <= 2562047788015215,
            1 <= refresh_expiry_days <= 106751991167300,
        ensures
            r.wf(),
            r.access_secret@ == vstd::utf8::encode_utf8(access_secret@),
            r.refresh_secret@ == vstd::utf8::encode_utf8(refresh_secret@),
            r.access_lifetime == access_expiry_hours * 3600,
            r.refresh_lifetime == refresh_expiry_days * 86400,
            r.hash_cost == 12,
            r.users.store@ == Seq::<UserModel>::empty(),
    {
        AuthService {
            access_secret: access_secret.as_str().as_bytes_vec(),
            refresh_secret: refresh_secret.as_str().as_bytes_vec(),
            access_lifetime: (access_expiry_hours * 3600) as i64,
            refresh_lifetime: (refresh_expiry_days * 86400) as i64,
            hash_cost: 12,
            users: UserService::new(CredentialStore::new()),
        }
    }

    /// The same service with another bcrypt cost for new digests.
    pub fn with_hash_cost(self, cost: u32) -> (r: AuthService)
        ensures
            r == (AuthService { hash_cost: cost, ..self }),
    {
        AuthService { hash_cost: cost, ..self }
    }

    /// Issues an access and a refresh token at `now` to the account `sub`.
    /// Fails with `Internal` when an expiry time does not fit or the signing
    /// library fails.
    pub fn issue_pair(
        &self,
        sub: &str,
        email: &str,
        role: UserRoleDto,
        now: i64,
        access_jti: String,
        refresh_jti: String,
    ) -> (r: Result<TokenPair, AppError>)
        ensures
            r matches Ok(p) ==> self.issued(p, sub@, email@, role, now, access_jti@, refresh_jti@),
            r is Err ==> r == Err::<TokenPair, AppError>(AppError::Internal),
            r is Ok <==> self.issuable(sub@, email@, role, now, access_jti@, refresh_jti@),
    {
        let access_exp = match now.checked_add(self.access_lifetime) {
            Some(e) => e,
            None => return Err(AppError::Internal),
        };
        let refresh_exp = match now.checked_add(self.refresh_lifetime) {
            Some(e) => e,
            None => return Err(AppError::Internal),
        };
        let access = Claims {
            sub: sub.to_owned(),
            email: email.to_owned(),
            role,
            iat: now,
            exp: access_exp,
            jti: access_jti,
            kind: TokenKind::Access,
        };
        let refresh = Claims {
            sub: sub.to_owned(),
            email: email.to_owned(),
            role,
            iat: now,
            exp: refresh_exp,
            jti: refresh_jti,
            kind: TokenKind::Refresh,
        };
        let access_token = match sign(&access, self.access_secret.as_slice()) {
            Some(t) => t,
            None => return Err(AppError::Internal),
        };
        let refresh_token = match sign(&refresh, self.refresh_secret.as_slice()) {
            Some(t) => t,
            None => return Err(AppError::Internal),
        };
        Ok(TokenPair { access_token, refresh_token, expires_in: access_exp, refresh_expires_in: refresh_exp })
    }

    /// Registers an account whose password digest, identifier and creation
    /// time are given, then issues its tokens at `now`. The role defaults to
    /// `Viewer`. On any error the store is unchanged.
    pub fn register_at(
        &mut self,
        email: &str,
        password_hash: String,
        name: &str,
        role: Option<UserRoleDto>,
        id: String,
        now: i64,
        access_jti: String,
        refresh_jti: String,
    ) -> (r: Result<TokenPair, AppError>)
        requires
            old(self).wf(),
        ensures
            final(self).wf(),
            final(self).access_secret == old(self).access_secret,
            final(self).refresh_secret == old(self).refresh_secret,
            final(self).access_lifetime == old(self).access_lifetime,
            final(self).refresh_lifetime == old(self).refresh_lifetime,
            r == Err::<TokenPair, AppError>(AppError::Conflict) <==> has_email(old(self).users.store@, email@),
            r is Ok <==> !has_email(old(self).users.store@, email@) && !has_id(old(self).users.store@, id@)
                && old(self).issuable(id@, email@, match role { Some(x) => x, None => UserRoleDto::Viewer }, now, access_jti@, refresh_jti@),
            r is Err ==> final(self).users.store@ == old(self).users.store@,
            r is Err ==> r == Err::<TokenPair, AppError>(AppError::Conflict) || r == Err::<TokenPair, AppError>(AppError::Internal),
            r matches Ok(p) ==> {
                let role_v = match role { Some(x) => x, None => UserRoleDto::Viewer };
                &&& !has_email(old(self).users.store@, email@)
                &&& final(self).users.store@ == old(self).users.store@.push(UserModel {
                    id: id@, email: email@, name: name@, password_hash: password_hash@, role: role_v,
                    created_at: now, updated_at: now,
                })
                &&& old(self).issued(p, id@, email@, role_v, now, access_jti@, refresh_jti@)
            },
    {
        let role_v = match role {
            Some(x) => x,
            None => UserRoleDto::Viewer,
        };
        if self.users.store.position_of_email(email).is_some() {
            return Err(AppError::Conflict);
        }
        let pair = self.issue_pair(id.as_str(), email, role_v, now, access_jti, refresh_jti)?;
        let user = User {
            id,
            email: email.to_owned(),
            name: name.to_owned(),
            password_hash,
            role: role_v,
            created_at: now,
            updated_at: now,
        };
        match self.users.store.insert(user) {
            Ok(()) => Ok(pair),
            Err(_) => Err(AppError::Internal),
        }
    }

    /// Registers an account: refuses a taken e-mail address (case ignored)
    /// with `Conflict`, digests the password, stores the account under a
    /// fresh identifier and issues its tokens. The role defaults to `Viewer`.
    /// On any error the store is unchanged.
    pub fn register(&mut self, email: &str, password: &str, name: &str, role: Option<UserRoleDto>) -> (r: Result<TokenPair, AppError>)
        requires
            old(self).wf(),
        ensures
            final(self).wf(),
            final(self).access_secret == old(self).access_secret,
            final(self).refresh_secret == old(self).refresh_secret,
            final(self).access_lifetime == old(self).access_lifetime,
            final(self).refresh_lifetime == old(self).refresh_lifetime,
            register_post(old(self).users.store@, final(self).users.store@, email@, password@, name@, role, r),
            r matches Ok(p) ==> old(self).issued_to(p, final(self).users.store@.last().id, email@,
                match role { Some(x) => x, None => UserRoleDto::Viewer }),
    {
        if self.users.store.position_of_email(email).is_some() {
            return Err(AppError::Conflict);
        }
        let digest = match hash_password(password, self.hash_cost) {
            Some(d) => d,
            None => return Err(AppError::Internal),
        };
        let ghost d = digest@;
        let id = fresh_id();
        let now = now_seconds();
        let ghost (old_self, idv) = (*old(self), id@);
        let aj = fresh_id();
        let rj = fresh_id();
        let ghost (ajv, rjv) = (aj@, rj@);
        let r = self.register_at(email, digest, name, role, id, now, aj, rj);
        proof {
            if r is Ok {
                let p = r->Ok_0;
                let role_v = match role { Some(x) => x, None => UserRoleDto::Viewer };
                assert(old_self.issued(p, idv, email@, role_v, now, ajv, rjv));
                assert(final(self).users.store@.last().id == idv);
                assert(final(self).users.store@.subrange(0, old_self.users.store@.len() as int) =~= old_self.users.store@);
                assert(final(self).users.store@.last().password_hash == d);
            }
        }
        r
    }

    /// Logs in with the tokens' identifiers and time given: succeeds only
    /// for an account with the e-mail address (case ignored) and a digest
    /// that the password matches, and fails with `Unauthorized` otherwise,
    /// the same error whether or not the address is registered.
    pub fn login_at(
        &self,
        email: &str,
        password: &str,
        now: i64,
        access_jti: String,
        refresh_jti: String,
    ) -> (r: Result<TokenPair, AppError>)
        requires
            self.wf(),
        ensures
            login_post(self.users.store@, email@, password@, r),
            r matches Ok(p) ==> exists|i: int| 0 <= i < self.users.store@.len() && #[trigger] same_email(self.users.store@[i].email, email@)
                && password_matches(password@, self.users.store@[i].password_hash)
                && self.issued(p, self.users.store@[i].id, self.users.store@[i].email, self.users.store@[i].role, now, access_jti@, refresh_jti@),
            forall|i: int| 0 <= i < self.users.store@.len() && #[trigger] same_email(self.users.store@[i].email, email@)
                && password_matches(password@, self.users.store@[i].password_hash) ==> (r is Ok <==> self.issuable(
                    self.users.store@[i].id, self.users.store@[i].email, self.users.store@[i].role, now, access_jti@, refresh_jti@)),
    {
        let n = self.users.store.len();
        let i = match self.users.store.position_of_email(email) {
            Some(i) => i,
            None => return Err(AppError::Unauthorized),
        };
        let user = self.users.store.get(i);
        if !verify_password(password, user.password_hash.as_str()) {
            proof {
                assert forall|j: int| 0 <= j < self.users.store@.len() && #[trigger] same_email(self.users.store@[j].email, email@)
                    implies !password_matches(password@, self.users.store@[j].password_hash) by {
                    if j != i {
                        assert(same_email(self.users.store@[i as int].email, self.users.store@[j].email));
                    }
                }
            }
            return Err(AppError::Unauthorized);
        }
        proof {
            assert forall|j: int| 0 <= j < self.users.store@.len() && #[trigger] same_email(self.users.store@[j].email, email@)
                implies j == i as int by {
                if j != i {
                    assert(same_email(self.users.store@[i as int].email, self.users.store@[j].email));
                }
            }
        }
        self.issue_pair(user.id.as_str(), user.email.as_str(), user.role, now, access_jti, refresh_jti)
    }

    /// Logs in: succeeds only for an account with the e-mail address (case
    /// ignored) and a digest that the password matches, and fails with
    /// `Unauthorized` otherwise, the same error whether or not the address is
    /// registered. Does not change the accounts.
    pub fn login(&self, email: &str, password: &str) -> (r: Result<TokenPair, AppError>)
        requires
            self.wf(),
        ensures
            login_post(self.users.store@, email@, password@, r),
            r matches Ok(p) ==> exists|i: int| 0 <= i < self.users.store@.len() && #[trigger] same_email(self.users.store@[i].email, email@)
                && password_matches(password@, self.users.store@[i].password_hash)
                && self.issued_to(p, self.users.store@[i].id, self.users.store@[i].email, self.users.store@[i].role),
    {
        let now = now_seconds();
        let aj = fresh_id();
        let rj = fresh_id();
        let ghost (ajv, rjv) = (aj@, rj@);
        let r = self.login_at(email, password, now, aj, rj);
        proof {
            if r is Ok {
                let p = r->Ok_0;
                let i = choose|i: int| 0 <= i < self.users.store@.len() && #[trigger] same_email(self.users.store@[i].email, email@)
                    && password_matches(password@, self.users.store@[i].password_hash)
                    && self.issued(p, self.users.store@[i].id, self.users.store@[i].email, self.users.store@[i].role, now, ajv, rjv);
                assert(self.issued_to(p, self.users.store@[i].id, self.users.store@[i].email, self.users.store@[i].role));
            }
        }
        r
    }

    /// Checks an access token at time `now`; every refusal is `Unauthorized`.
    pub fn validate_token_at(&self, token: &str, now: i64) -> (r: Result<Claims, AppError>)
        ensures
            validate_post(self.access_secret@, token@, now, guard_model(r)),
    {
        let v = verify(token, self.access_secret.as_slice(), TokenKind::Access, now);
        let ghost vm = result_model(v);
        match v {
            Ok(c) => {
                assert(verify_post(token@, self.access_secret@, TokenKind::Access, now, vm));
                Ok(c)
            },
            Err(_) => {
                assert(verify_post(token@, self.access_secret@, TokenKind::Access, now, vm));
                Err(AppError::Unauthorized)
            },
        }
    }

    /// Checks an access token now; every refusal is `Unauthorized`.
    pub fn validate_token(&self, token: &str) -> (r: Result<Claims, AppError>)
        ensures
            exists|now: i64| #[trigger] validate_post(self.access_secret@, token@, now, guard_model(r)),
    {
        let now = now_seconds();
        let r = self.validate_token_at(token, now);
        assert(validate_post(self.access_secret@, token@, now, guard_model(r)));
        r
    }

    /// Exchanges a refresh token, checked at `now`, for a new pair issued at
    /// `now` to the token's account; every refusal is `Unauthorized`.
    pub fn refresh_at(
        &self,
        refresh_token: &str,
        now: i64,
        access_jti: String,
        refresh_jti: String,
    ) -> (r: Result<TokenPair, AppError>)
        ensures
            refresh_post(self.refresh_secret@, refresh_token@, now, r),
            r matches Ok(p) ==> exists|m: ClaimsModel| verify_post(refresh_token@, self.refresh_secret@, TokenKind::Refresh, now, Ok(m))
                && #[trigger] self.issued(p, m.sub, m.email, m.role, now, access_jti@, refresh_jti@),
            forall|m: ClaimsModel| #[trigger] verify_post(refresh_token@, self.refresh_secret@, TokenKind::Refresh, now, Ok(m))
                ==> (r is Ok <==> self.issuable(m.sub, m.email, m.role, now, access_jti@, refresh_jti@)),
    {
        let v = verify(refresh_token, self.refresh_secret.as_slice(), TokenKind::Refresh, now);
        let ghost vm = result_model(v);
        proof {
            assert forall|m: ClaimsModel| #[trigger] verify_post(refresh_token@, self.refresh_secret@, TokenKind::Refresh, now, Ok(m))
                implies vm == Ok::<ClaimsModel, crate::token::TokenError>(m) by {
                crate::token::lemma_verify_post_unique(refresh_token@, self.refresh_secret@, TokenKind::Refresh, now, Ok(m), vm);
            }
        }
        match v {
            Err(_) => {
                assert(verify_post(refresh_token@, self.refresh_secret@, TokenKind::Refresh, now, vm));
                Err(AppError::Unauthorized)
            },
            Ok(c) => {
                let r = self.issue_pair(c.sub.as_str(), c.email.as_str(), c.role, now, access_jti, refresh_jti);
                proof {
                    if r is Ok {
                        assert(verify_post(refresh_token@, self.refresh_secret@, TokenKind::Refresh, now, Ok(c@)));
                    } else {
                        assert(verify_post(refresh_token@, self.refresh_secret@, TokenKind::Refresh, now, vm));
                    }
                }
                r
            },
        }
    }

    /// Exchanges a refresh token for a new pair issued now to the token's
    /// account; every refusal is `Unauthorized`.
    pub fn refresh_token(&self, refresh_token: &str) -> (r: Result<TokenPair, AppError>)
        ensures
            exists|now: i64| #[trigger] refresh_post(self.refresh_secret@, refresh_token@, now, r),
            r matches Ok(p) ==> exists|now: i64, m: ClaimsModel| #[trigger] verify_post(refresh_token@, self.refresh_secret@, TokenKind::Refresh, now, Ok(m))
                && self.issued_to(p, m.sub, m.email, m.role) && now < m.exp,
    {
        let now = now_seconds();
        let aj = fresh_id();
        let rj = fresh_id();
        let ghost (ajv, rjv) = (aj@, rj@);
        let r = self.refresh_at(refresh_token, now, aj, rj);
        assert(refresh_post(self.refresh_secret@, refresh_token@, now, r));
        proof {
            if r is Ok {
                let p = r->Ok_0;
                let m = choose|m: ClaimsModel| verify_post(refresh_token@, self.refresh_secret@, TokenKind::Refresh, now, Ok(m))
                    && #[trigger] self.issued(p, m.sub, m.email, m.role, now, ajv, rjv);
                assert(self.issued_to(p, m.sub, m.email, m.role));
                assert(claims_text(m) == claims_text(m));
            }
        }
        r
    }
}

/// What registering `email` with `password`, `name` and `role` does to the
/// accounts `before`, giving `after` and the result `r`.
pub open spec fn register_post(
    before: Seq<UserModel>,
    after: Seq<UserModel>,
    email: Seq<char>,
    password: Seq<char>,
    name: Seq<char>,
    role: Option<UserRoleDto>,
    r: Result<TokenPair, AppError>,
) -> bool {
    &&& has_email(before, email) ==> r == Err::<TokenPair, AppError>(AppError::Conflict)
    &&& r == Err::<TokenPair, AppError>(AppError::Conflict) ==> has_email(before, email)
    &&& r is Err ==> after == before
    &&& r is Err ==> r == Err::<TokenPair, AppError>(AppError::Conflict) || r == Err::<TokenPair, AppError>(AppError::Internal)
    &&& r is Ok ==> {
        &&& !has_email(before, email)
        &&& after.len() == before.len() + 1
        &&& after.subrange(0, before.len() as int) == before
        &&& after.last().email == email
        &&& after.last().name == name
        &&& after.last().role == match role { Some(x) => x, None => UserRoleDto::Viewer }
        &&& password_matches(password, after.last().password_hash)
        &&& after.last().created_at == after.last().updated_at
    }
}

/// What logging in with `email` and `password` against `users` returns.
pub open spec fn login_post(users: Seq<UserModel>, email: Seq<char>, password: Seq<char>, r: Result<TokenPair, AppError>) -> bool {
    &&& !credentials_valid(users, email, password) ==> r == Err::<TokenPair, AppError>(AppError::Unauthorized)
    &&& credentials_valid(users, email, password) ==> r is Ok || r == Err::<TokenPair, AppError>(AppError::Internal)
}

/// What exchanging `token` under the refresh secret `secret` at `now`
/// returns: `Unauthorized` unless the token verifies as an unexpired
/// refresh token, and then a pair or an `Internal` error.
pub open spec fn refresh_post(secret: Seq<u8>, token: Seq<char>, now: i64, r: Result<TokenPair, AppError>) -> bool {
    exists|v: Result<ClaimsModel, crate::token::TokenError>| #[trigger] verify_post(token, secret, TokenKind::Refresh, now, v)
        && (v is Err ==> r == Err::<TokenPair, AppError>(AppError::Unauthorized))
        && (v is Ok ==> r is Ok || r == Err::<TokenPair, AppError>(AppError::Internal))
}

/// An address registers once: after a registration of `email` went
/// through, registering any address that is equal to it with case ignored
/// fails with `Conflict` and leaves the accounts unchanged.
pub proof fn lemma_register_once(
    s0: Seq<UserModel>,
    s1: Seq<UserModel>,
    s2: Seq<UserModel>,
    email: Seq<char>,
    email2: Seq<char>,
    password: Seq<char>,
    password2: Seq<char>,
    name: Seq<char>,
    name2: Seq<char>,
    role: Option<UserRoleDto>,
    role2: Option<UserRoleDto>,
    r1: Result<TokenPair, AppError>,
    r2: Result<TokenPair, AppError>,
)
    requires
        register_post(s0, s1, email, password, name, role, r1),
        r1 is Ok,
        register_post(s1, s2, email2, password2, name2, role2, r2),
        same_email(email, email2),
    ensures
        r2 == Err::<TokenPair, AppError>(AppError::Conflict),
        s2 == s1,
{
    let i = s1.len() - 1;
    assert(same_email(s1[i].email, email2));
}

/// A login with wrong credentials fails the same way every time:
/// `Unauthorized`, whether or not the address is registered.
pub proof fn lemma_failed_login_repeats(
    users: Seq<UserModel>,
    email: Seq<char>,
    password: Seq<char>,
    r1: Result<TokenPair, AppError>,
    r2: Result<TokenPair, AppError>,
)
    requires
        !credentials_valid(users, email, password),
        login_post(users, email, password, r1),
        login_post(users, email, password, r2),
    ensures
        r1 == r2,
        r1 == Err::<TokenPair, AppError>(AppError::Unauthorized),
{
}

/// A refresh never goes through with an access token: when the presented
/// token, under the refresh secret, carries access-kind claims, the
/// exchange fails with `Unauthorized`.
pub proof fn lemma_refresh_refuses_access(
    secret: Seq<u8>,
    token: Seq<char>,
    now: i64,
    m: ClaimsModel,
    r: Result<TokenPair, AppError>,
)
    requires
        refresh_post(secret, token, now, r),
        hs256_payload(token, secret) == Some(claims_text(m)),
        m.kind == TokenKind::Access,
    ensures
        r == Err::<TokenPair, AppError>(AppError::Unauthorized),
{
    let v = choose|v: Result<ClaimsModel, crate::token::TokenError>| #[trigger] verify_post(token, secret, TokenKind::Refresh, now, v)
        && (v is Err ==> r == Err::<TokenPair, AppError>(AppError::Unauthorized))
        && (v is Ok ==> r is Ok || r == Err::<TokenPair, AppError>(AppError::Internal));
    assert(claims_text(m) == claims_text(m));
    assert(v == check_claims(m, TokenKind::Refresh, now));
}

/// What checking `token` as an access token under `secret` at `now`
/// returns: the verified claims, and `Unauthorized` for every refusal.
pub open spec fn validate_post(secret: Seq<u8>, token: Seq<char>, now: i64, r: Result<ClaimsModel, AppError>) -> bool {
    exists|v: Result<ClaimsModel, crate::token::TokenError>| #[trigger] verify_post(token, secret, TokenKind::Access, now, v)
        && (v is Err ==> r == Err::<ClaimsModel, AppError>(AppError::Unauthorized))
        && (v matches Ok(m) ==> r == Ok::<ClaimsModel, AppError>(m))
}

/// An access check never lets a refresh token through: when the token,
/// under the access secret, carries refresh-kind claims, the check fails
/// with `Unauthorized`.
pub proof fn lemma_validate_refuses_refresh(
    secret: Seq<u8>,
    token: Seq<char>,
    now: i64,
    m: ClaimsModel,
    r: Result<ClaimsModel, AppError>,
)
    requires
        validate_post(secret, token, now, r),
        hs256_payload(token, secret) == Some(claims_text(m)),
        m.kind == TokenKind::Refresh,
    ensures
        r == Err::<ClaimsModel, AppError>(AppError::Unauthorized),
{
    let v = choose|v: Result<ClaimsModel, crate::token::TokenError>| #[trigger] verify_post(token, secret, TokenKind::Access, now, v)
        && (v is Err ==> r == Err::<ClaimsModel, AppError>(AppError::Unauthorized))
        && (v matches Ok(mm) ==> r == Ok::<ClaimsModel, AppError>(mm));
    assert(claims_text(m) == claims_text(m));
    assert(v == check_claims(m, TokenKind::Access, now));
}

} // verus!
