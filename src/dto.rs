//! Request and response shapes of the authentication routes.

use vstd::prelude::*;
use crate::role::UserRoleDto;
use crate::store::{User, UserModel};

verus! {

/// Body of a login request.
pub struct LoginRequestDto {
    pub email: String,
    pub password: String,
}

/// Body of a registration request; the role is a role name.
pub struct RegisterRequestDto {
    pub email: String,
    pub password: String,
    pub name: String,
    pub role: Option<String>,
}

/// Body of a token refresh request.
pub struct RefreshTokenRequestDto {
    pub refresh_token: String,
}

/// What a response shows of an account: never its password digest.
pub struct UserResponseDto {
    pub id: String,
    pub email: String,
    pub name: String,
    pub role: UserRoleDto,
}

/// Whether `d` shows the account `u`.
pub open spec fn shows(d: UserResponseDto, u: UserModel) -> bool {
    d.id@ == u.id && d.email@ == u.email && d.name@ == u.name && d.role == u.role
}

impl From<User> for UserResponseDto {
    fn from(user: User) -> (r: UserResponseDto) {
        UserResponseDto { id: user.id, email: user.email, name: user.name, role: user.role }
    }
}

impl vstd::std_specs::convert::FromSpecImpl<User> for UserResponseDto {
    open spec fn obeys_from_spec() -> bool {
        true
    }

    open spec fn from_spec(user: User) -> UserResponseDto {
        UserResponseDto { id: user.id, email: user.email, name: user.name, role: user.role }
    }
}

/// Response to a login or a registration: the tokens and the account.
pub struct LoginResponseDto {
    pub access_token: String,
    pub refresh_token: String,
    /// Absolute expiry time of the access token, epoch seconds.
    pub expires_in: i64,
    /// Absolute expiry time of the refresh token, epoch seconds.
    pub refresh_expires_in: i64,
    pub user: UserResponseDto,
}

/// Body of an account creation request; the role is a role name.
pub struct CreateUserRequestDto {
    pub email: String,
    pub password: String,
    pub name: String,
    pub role: Option<String>,
}

/// Response to an account creation.
pub struct CreateUserResponseDto {
    pub user: UserResponseDto,
    pub message: String,
}

/// Body of a profile change: the fields to change.
pub struct UpdateUserRequestDto {
    pub name: Option<String>,
    pub email: Option<String>,
}

/// Response to a profile change.
pub struct UpdateUserResponseDto {
    pub user: UserResponseDto,
    pub message: String,
}

/// Paging parameters of the account list.
pub struct ListUsersQuery {
    pub limit: Option<u64>,
    pub offset: Option<u64>,
}

/// Role parameter of the role filter; a role name.
pub struct RoleQuery {
    pub role: String,
}

/// A page of accounts and the number of all accounts.
pub struct ListUsersResponseDto {
    pub users: Vec<UserResponseDto>,
    pub total: u64,
}

/// The number of accounts.
pub struct CountUsersResponseDto {
    pub count: u64,
}

/// The response shapes of a sequence of accounts, in order.
pub fn summaries(users: Vec<User>) -> (r: Vec<UserResponseDto>)
    ensures
        r@.len() == users@.len(),
        forall|i: int| 0 <= i < users@.len() ==> #[trigger] shows(r@[i], users@[i]@),
{
    let mut out: Vec<UserResponseDto> = Vec::new();
    let mut rest = users;
    let ghost all = rest@;
    let mut reversed: Vec<User> = Vec::new();
    while rest.len() > 0
        invariant
            reversed@.len() + rest@.len() == all.len(),
            forall|i: int| 0 <= i < rest@.len() ==> #[trigger] rest@[i] == all[i],
            forall|i: int| 0 <= i < reversed@.len() ==> #[trigger] reversed@[i] == all[all.len() - 1 - i],
        decreases rest@.len(),
    {
        let u = rest.pop().unwrap();
        reversed.push(u);
    }
    while reversed.len() > 0
        invariant
            out@.len() + reversed@.len() == all.len(),
            forall|i: int| 0 <= i < reversed@.len() ==> #[trigger] reversed@[i] == all[all.len() - 1 - i],
            forall|i: int| 0 <= i < out@.len() ==> #[trigger] shows(out@[i], all[i]@),
        decreases reversed@.len(),
    {
        let u = reversed.pop().unwrap();
        out.push(UserResponseDto { id: u.id, email: u.email, name: u.name, role: u.role });
    }
    out
}

} // verus!
