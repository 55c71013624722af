//! What the authentication routes compute: from a request body to a
//! response body or an error class.

use vstd::prelude::*;
use crate::dto::{
    shows, summaries, CountUsersResponseDto, CreateUserRequestDto, CreateUserResponseDto,
    ListUsersQuery, ListUsersResponseDto, LoginRequestDto, LoginResponseDto, RefreshTokenRequestDto,
    RegisterRequestDto, RoleQuery, UpdateUserRequestDto, UpdateUserResponseDto, UserResponseDto,
};
use crate::errors::AppError;
use crate::role::UserRoleDto;
use crate::session::{login_post, refresh_post, AuthService, TokenPair};
use crate::store::{has_email, has_id, page, same_email};

verus! {

/// Liveness of the authentication routes.
pub struct AuthController;

impl AuthController {
    /// The fixed liveness answer.
    pub fn health() -> (r: String)
        ensures
            r@ == "Auth API - OK"@,
    {
        String::from_str("Auth API - OK")
    }
}

/// Logs in and answers with the tokens and the account.
pub fn login(service: &AuthService, payload: LoginRequestDto) -> (r: Result<LoginResponseDto, AppError>)
    requires
        service.wf(),
    ensures
        exists|t: Result<TokenPair, AppError>| #[trigger] login_post(service.users.store@, payload.email@, payload.password@, t)
            && (t is Err ==> r == Err::<LoginResponseDto, AppError>(t->Err_0))
            && (t is Ok ==> r is Ok || r == Err::<LoginResponseDto, AppError>(AppError::Internal)),
        r matches Ok(d) ==> exists|i: int| 0 <= i < service.users.store@.len() && #[trigger] shows(d.user, service.users.store@[i])
            && same_email(service.users.store@[i].email, payload.email@),
{
    let pair = service.login(payload.email.as_str(), payload.password.as_str());
    match pair {
        Err(e) => Err(e),
        Ok(p) => match service.users.get_user_by_email(payload.email.as_str()) {
            Some(u) => {
                proof {
                    let i = choose|i: int| 0 <= i < service.users.store@.len() && #[trigger] service.users.store@[i] == u@
                        && same_email(u@.email, payload.email@);
                    assert(shows(UserResponseDto { id: u.id, email: u.email, name: u.name, role: u.role }, service.users.store@[i]));
                }
                Ok(LoginResponseDto {
                access_token: p.access_token,
                refresh_token: p.refresh_token,
                expires_in: p.expires_in,
                refresh_expires_in: p.refresh_expires_in,
                user: UserResponseDto { id: u.id, email: u.email, name: u.name, role: u.role },
            })
            },
            None => Err(AppError::Internal),
        },
    }
}

/// Registers an account with the role named in the request (`Viewer` when
/// none is named) and answers with its tokens and the account; `Conflict`
/// exactly when the address is taken (case ignored).
pub fn register(service: &mut AuthService, payload: RegisterRequestDto) -> (r: Result<LoginResponseDto, AppError>)
    requires
        old(service).wf(),
    ensures
        final(service).wf(),
        has_email(old(service).users.store@, payload.email@) ==> r == Err::<LoginResponseDto, AppError>(AppError::Conflict),
        r == Err::<LoginResponseDto, AppError>(AppError::Conflict) ==> has_email(old(service).users.store@, payload.email@),
        r is Err ==> r == Err::<LoginResponseDto, AppError>(AppError::Conflict) || r == Err::<LoginResponseDto, AppError>(AppError::Internal),
        r is Err ==> final(service).users.store@ == old(service).users.store@,
        r matches Ok(d) ==> shows(d.user, final(service).users.store@.last())
            && final(service).users.store@.len() == old(service).users.store@.len() + 1
            && final(service).users.store@.last().role == (match payload.role {
                Some(n) => crate::role::role_of_lowered(crate::text::lower_of(n@)),
                None => UserRoleDto::Viewer,
            }),
{
    let role = match &payload.role {
        Some(name) => Some(UserRoleDto::from(name.as_str())),
        None => None,
    };
    let pair = service.register(payload.email.as_str(), payload.password.as_str(), payload.name.as_str(), role);
    match pair {
        Err(e) => Err(e),
        Ok(p) => {
            let n = service.users.store.len();
            let u = service.users.store.get(n - 1);
            Ok(LoginResponseDto {
                access_token: p.access_token,
                refresh_token: p.refresh_token,
                expires_in: p.expires_in,
                refresh_expires_in: p.refresh_expires_in,
                user: UserResponseDto { id: u.id, email: u.email, name: u.name, role: u.role },
            })
        },
    }
}

/// Exchanges a refresh token for a new pair.
pub fn refresh_token(service: &AuthService, payload: RefreshTokenRequestDto) -> (r: Result<TokenPair, AppError>)
    ensures
        exists|now: i64| #[trigger] refresh_post(service.refresh_secret@, payload.refresh_token@, now, r),
{
    service.refresh_token(payload.refresh_token.as_str())
}

/// Account creation.
pub struct CreateUserController;

impl CreateUserController {
    pub fn new() -> (r: CreateUserController) {
        CreateUserController
    }
}

/// Creates an account with the role named in the request (`Viewer` when
/// none is named) and the service's bcrypt cost.
pub fn create_user(service: &mut AuthService, payload: CreateUserRequestDto) -> (r: Result<CreateUserResponseDto, AppError>)
    requires
        old(service).wf(),
    ensures
        final(service).wf(),
        has_email(old(service).users.store@, payload.email@) ==> r == Err::<CreateUserResponseDto, AppError>(AppError::Conflict),
        r == Err::<CreateUserResponseDto, AppError>(AppError::Conflict) ==> has_email(old(service).users.store@, payload.email@),
        r is Err ==> r == Err::<CreateUserResponseDto, AppError>(AppError::Conflict) || r == Err::<CreateUserResponseDto, AppError>(AppError::Internal),
        r is Err ==> final(service).users.store@ == old(service).users.store@,
        r matches Ok(d) ==> final(service).users.store@.len() == old(service).users.store@.len() + 1
            && shows(d.user, final(service).users.store@.last()) && d.message@ == "Usuário criado com sucesso"@,
{
    let role = match &payload.role {
        Some(name) => Some(UserRoleDto::from(name.as_str())),
        None => None,
    };
    let cost = service.hash_cost;
    match service.users.create_user(payload.email.as_str(), payload.password.as_str(), payload.name.as_str(), role, cost) {
        Err(e) => Err(e),
        Ok(u) => Ok(CreateUserResponseDto {
            user: UserResponseDto { id: u.id, email: u.email, name: u.name, role: u.role },
            message: String::from_str("Usuário criado com sucesso"),
        }),
    }
}

/// Account lookup.
pub struct FindUserByIdController;

impl FindUserByIdController {
    pub fn new() -> (r: FindUserByIdController) {
        FindUserByIdController
    }
}

/// The account with identifier `user_id`; `NotFound` when there is none.
pub fn get_user_by_id(service: &AuthService, user_id: &str) -> (r: Result<UserResponseDto, AppError>)
    requires
        service.wf(),
    ensures
        r is Err <==> !has_id(service.users.store@, user_id@),
        r is Err ==> r == Err::<UserResponseDto, AppError>(AppError::NotFound),
        r matches Ok(d) ==> d.id@ == user_id@ && exists|i: int| 0 <= i < service.users.store@.len() && #[trigger] shows(d, service.users.store@[i]),
{
    match service.users.get_user_by_id(user_id) {
        Some(u) => {
            proof {
                let i = choose|i: int| 0 <= i < service.users.store@.len() && #[trigger] service.users.store@[i] == u@ && u@.id == user_id@;
                assert(shows(UserResponseDto { id: u.id, email: u.email, name: u.name, role: u.role }, service.users.store@[i]));
            }
            Ok(UserResponseDto { id: u.id, email: u.email, name: u.name, role: u.role })
        },
        None => Err(AppError::NotFound),
    }
}

/// The account with e-mail address `email` (case ignored); `NotFound` when
/// there is none.
pub fn get_user_by_email(service: &AuthService, email: &str) -> (r: Result<UserResponseDto, AppError>)
    requires
        service.wf(),
    ensures
        r is Err <==> !has_email(service.users.store@, email@),
        r is Err ==> r == Err::<UserResponseDto, AppError>(AppError::NotFound),
        r matches Ok(d) ==> same_email(d.email@, email@) && exists|i: int| 0 <= i < service.users.store@.len() && #[trigger] shows(d, service.users.store@[i]),
{
    match service.users.get_user_by_email(email) {
        Some(u) => {
            proof {
                let i = choose|i: int| 0 <= i < service.users.store@.len() && #[trigger] service.users.store@[i] == u@
                    && same_email(u@.email, email@);
                assert(shows(UserResponseDto { id: u.id, email: u.email, name: u.name, role: u.role }, service.users.store@[i]));
            }
            Ok(UserResponseDto { id: u.id, email: u.email, name: u.name, role: u.role })
        },
        None => Err(AppError::NotFound),
    }
}

/// Account listing.
pub struct FindUsersController;

impl FindUsersController {
    pub fn new() -> (r: FindUsersController) {
        FindUsersController
    }
}

/// A page of accounts and the number of all accounts.
pub fn list_users(service: &AuthService, query: ListUsersQuery) -> (r: ListUsersResponseDto)
    requires
        service.wf(),
    ensures
        r.total == service.users.store@.len(),
        r.users@.len() == page(service.users.store@, query.limit, query.offset).len(),
        forall|i: int| 0 <= i < r.users@.len() ==> #[trigger] shows(r.users@[i], page(service.users.store@, query.limit, query.offset)[i]),
{
    let users = service.users.list_users(query.limit, query.offset);
    let total = service.users.count_users();
    let ghost us = users@;
    let shown = summaries(users);
    proof {
        assert forall|i: int| 0 <= i < shown@.len() implies #[trigger] shows(shown@[i], page(service.users.store@, query.limit, query.offset)[i]) by {
            assert(crate::store::views(us)[i] == us[i]@);
        }
    }
    ListUsersResponseDto { users: shown, total }
}

/// The accounts whose role is the one named in the query (case ignored;
/// any name but `admin` means `Viewer`).
pub fn get_users_by_role(service: &AuthService, query: RoleQuery) -> (r: Vec<UserResponseDto>)
    requires
        service.wf(),
    ensures
        r@.len() == crate::store::of_role(service.users.store@, crate::role::role_of_lowered(crate::text::lower_of(query.role@))).len(),
        forall|i: int| 0 <= i < r@.len() ==> #[trigger] shows(r@[i],
            crate::store::of_role(service.users.store@, crate::role::role_of_lowered(crate::text::lower_of(query.role@)))[i]),
{
    let role = UserRoleDto::from(query.role.as_str());
    let users = service.users.get_users_by_role(role);
    let ghost us = users@;
    let r = summaries(users);
    proof {
        assert(crate::store::views(us).len() == us.len());
        assert forall|i: int| 0 <= i < r@.len() implies #[trigger] shows(r@[i],
            crate::store::of_role(service.users.store@, crate::role::role_of_lowered(crate::text::lower_of(query.role@)))[i]) by {
            assert(crate::store::views(us)[i] == us[i]@);
        }
    }
    r
}

/// The number of accounts.
pub fn count_users(service: &AuthService) -> (r: CountUsersResponseDto)
    requires
        service.wf(),
    ensures
        r.count == service.users.store@.len(),
{
    CountUsersResponseDto { count: service.users.count_users() }
}

/// Profile changes and removal of accounts.
pub struct UserController;

impl UserController {
    /// Changes the name and e-mail address of the account `user_id`, never
    /// its role. `NotFound` when there is no such account, `Conflict` when
    /// another account has the new address (case ignored).
    pub fn update_user(service: &mut AuthService, user_id: &str, payload: UpdateUserRequestDto) -> (r: Result<UpdateUserResponseDto, AppError>)
        requires
            old(service).wf(),
        ensures
            final(service).wf(),
            !has_id(old(service).users.store@, user_id@) ==> r == Err::<UpdateUserResponseDto, AppError>(AppError::NotFound),
            r is Err ==> final(service).users.store@ == old(service).users.store@,
            r matches Ok(d) ==> d.message@ == "Usuário atualizado com sucesso"@ && d.user.id@ == user_id@
                && exists|i: int| 0 <= i < old(service).users.store@.len() && old(service).users.store@[i].id == user_id@
                    && #[trigger] shows(d.user, final(service).users.store@[i])
                    && final(service).users.store@[i].role == old(service).users.store@[i].role,
    {
        match service.users.update_user(user_id, payload.name, payload.email) {
            Err(e) => Err(e),
            Ok(None) => Err(AppError::NotFound),
            Ok(Some(u)) => {
                proof {
                    let i = choose|i: int| 0 <= i < old(service).users.store@.len() && old(service).users.store@[i].id == user_id@
                        && #[trigger] service.users.store@ == old(service).users.store@.update(i, u@)
                        && u@.role == old(service).users.store@[i].role
                        && u@.password_hash == old(service).users.store@[i].password_hash
                        && u@.id == user_id@
                        && u@.name == (match payload.name { Some(x) => x@, None => old(service).users.store@[i].name })
                        && u@.email == (match payload.email { Some(x) => x@, None => old(service).users.store@[i].email });
                    assert(service.users.store@[i] == u@);
                    assert(shows(UserResponseDto { id: u.id, email: u.email, name: u.name, role: u.role }, service.users.store@[i]));
                }
                Ok(UpdateUserResponseDto {
                    user: UserResponseDto { id: u.id, email: u.email, name: u.name, role: u.role },
                    message: String::from_str("Usuário atualizado com sucesso"),
                })
            },
        }
    }

    /// Removes the account `user_id`; `NotFound` when there is none.
    pub fn delete_user(service: &mut AuthService, user_id: &str) -> (r: Result<String, AppError>)
        requires
            old(service).wf(),
        ensures
            final(service).wf(),
            r is Err <==> !has_id(old(service).users.store@, user_id@),
            r is Err ==> r == Err::<String, AppError>(AppError::NotFound) && final(service).users.store@ == old(service).users.store@,
            r matches Ok(m) ==> m@ == "Usuário deletado com sucesso"@,
    {
        if service.users.delete_user(user_id) {
            Ok(String::from_str("Usuário deletado com sucesso"))
        } else {
            Err(AppError::NotFound)
        }
    }
}

} // verus!
