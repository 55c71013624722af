//! Account administration over the credential store.

use vstd::prelude::*;
use crate::clock::{fresh_id, now_seconds};
use crate::errors::AppError;
use crate::password::{hash_password, password_matches};
use crate::role::UserRoleDto;
use crate::store::{
    email_taken_by_other, has_email, has_id, of_role, page, same_email, views, CredentialStore,
    StoreError, User, UserModel,
};

verus! {

/// Listing, lookup, creation, profile changes and removal of accounts.
pub struct UserService {
    pub store: CredentialStore,
}

impl UserService {
    /// A service over `store`.
    pub fn new(store: CredentialStore) -> (r: UserService)
        ensures
            r.store == store,
    {
        UserService { store }
    }

    /// The accounts from `offset` on (none skipped when `None`), at most
    /// `limit` of them (all when `None`).
    pub fn list_users(&self, limit: Option<u64>, offset: Option<u64>) -> (r: Vec<User>)
        requires
            self.store.wf(),
        ensures
            views(r@) == page(self.store@, limit, offset),
    {
        self.store.list(limit, offset)
    }

    /// The number of accounts.
    pub fn count_users(&self) -> (r: u64)
        requires
            self.store.wf(),
        ensures
            r == self.store@.len(),
    {
        self.store.len() as u64
    }

    /// The accounts of role `role`, in order.
    pub fn get_users_by_role(&self, role: UserRoleDto) -> (r: Vec<User>)
        requires
            self.store.wf(),
        ensures
            views(r@) == of_role(self.store@, role),
    {
        self.store.with_role(role)
    }

    /// The account with identifier `id`, if any.
    pub fn get_user_by_id(&self, id: &str) -> (r: Option<User>)
        requires
            self.store.wf(),
        ensures
            r matches Some(u) ==> exists|i: int| 0 <= i < self.store@.len() && #[trigger] self.store@[i] == u@ && u@.id == id@,
            r is None ==> !has_id(self.store@, id@),
    {
        match self.store.position_of_id(id) {
            Some(i) => Some(self.store.get(i)),
            None => None,
        }
    }

    /// The account with e-mail address `email` (case ignored), if any.
    pub fn get_user_by_email(&self, email: &str) -> (r: Option<User>)
        requires
            self.store.wf(),
        ensures
            r matches Some(u) ==> exists|i: int| 0 <= i < self.store@.len() && #[trigger] self.store@[i] == u@
                && same_email(u@.email, email@),
            r is None ==> !has_email(self.store@, email@),
    {
        match self.store.position_of_email(email) {
            Some(i) => Some(self.store.get(i)),
            None => None,
        }
    }

    /// Stores an account whose digest, identifier and creation time are
    /// given; the role defaults to `Viewer`. `Conflict` when the address is
    /// taken (case ignored), `Internal` when the identifier is.
    pub fn create_user_with(
        &mut self,
        email: &str,
        password_hash: String,
        name: &str,
        role: Option<UserRoleDto>,
        id: String,
        now: i64,
    ) -> (r: Result<User, AppError>)
        requires
            old(self).store.wf(),
        ensures
            final(self).store.wf(),
            has_email(old(self).store@, email@) ==> r == Err::<User, AppError>(AppError::Conflict),
            !has_email(old(self).store@, email@) && has_id(old(self).store@, id@) ==> r == Err::<User, AppError>(AppError::Internal),
            r is Ok <==> !has_email(old(self).store@, email@) && !has_id(old(self).store@, id@),
            r is Err ==> final(self).store@ == old(self).store@,
            r matches Ok(u) ==> !has_email(old(self).store@, email@) && final(self).store@ == old(self).store@.push(u@)
                && u@ == (UserModel {
                    id: id@, email: email@, name: name@, password_hash: password_hash@,
                    role: match role { Some(x) => x, None => UserRoleDto::Viewer },
                    created_at: now, updated_at: now,
                }),
    {
        let user = User {
            id,
            email: email.to_owned(),
            name: name.to_owned(),
            password_hash,
            role: match role {
                Some(x) => x,
                None => UserRoleDto::Viewer,
            },
            created_at: now,
            updated_at: now,
        };
        let copy = user.duplicate();
        match self.store.insert(user) {
            Ok(()) => Ok(copy),
            Err(StoreError::EmailTaken) => Err(AppError::Conflict),
            Err(StoreError::IdTaken) => Err(AppError::Internal),
        }
    }

    /// Creates an account: digests the password with bcrypt cost `cost`
    /// and stores the account under a fresh identifier. `Conflict` when the
    /// address is taken (case ignored); on any error the store is unchanged.
    pub fn create_user(&mut self, email: &str, password: &str, name: &str, role: Option<UserRoleDto>, cost: u32) -> (r: Result<User, AppError>)
        requires
            old(self).store.wf(),
        ensures
            final(self).store.wf(),
            has_email(old(self).store@, email@) ==> r == Err::<User, AppError>(AppError::Conflict),
            r == Err::<User, AppError>(AppError::Conflict) ==> has_email(old(self).store@, email@),
            r is Err ==> r == Err::<User, AppError>(AppError::Conflict) || r == Err::<User, AppError>(AppError::Internal),
            r is Err ==> final(self).store@ == old(self).store@,
            r matches Ok(u) ==> !has_email(old(self).store@, email@) && final(self).store@ == old(self).store@.push(u@)
                && u@.email == email@ && u@.name == name@ && password_matches(password@, u@.password_hash)
                && u@.role == (match role { Some(x) => x, None => UserRoleDto::Viewer }),
    {
        if self.store.position_of_email(email).is_some() {
            return Err(AppError::Conflict);
        }
        let digest = match hash_password(password, cost) {
            Some(d) => d,
            None => return Err(AppError::Internal),
        };
        let id = fresh_id();
        let now = now_seconds();
        self.create_user_with(email, digest, name, role, id, now)
    }

    /// Changes the name and e-mail address of the account `id`, never its
    /// role. `Ok(None)` when there is no such account, `Conflict` when
    /// another account has the new address (case ignored).
    pub fn update_user(&mut self, id: &str, name: Option<String>, email: Option<String>) -> (r: Result<Option<User>, AppError>)
        requires
            old(self).store.wf(),
        ensures
            final(self).store.wf(),
            !has_id(old(self).store@, id@) ==> (r matches Ok(None) && final(self).store@ == old(self).store@),
            r matches Ok(None) ==> !has_id(old(self).store@, id@),
            r is Err <==> has_id(old(self).store@, id@) && email_taken_by_other(old(self).store@, id@, email),
            r is Err ==> r == Err::<Option<User>, AppError>(AppError::Conflict) && final(self).store@ == old(self).store@,
            r matches Ok(Some(u)) ==> exists|i: int| 0 <= i < old(self).store@.len() && old(self).store@[i].id == id@
                && #[trigger] final(self).store@ == old(self).store@.update(i, u@)
                && u@.role == old(self).store@[i].role
                && u@.password_hash == old(self).store@[i].password_hash
                && u@.id == id@
                && u@.name == (match name { Some(x) => x@, None => old(self).store@[i].name })
                && u@.email == (match email { Some(x) => x@, None => old(self).store@[i].email }),
    {
        let now = now_seconds();
        match self.store.update_profile(id, name, email, now) {
            Ok(u) => Ok(u),
            Err(_) => Err(AppError::Conflict),
        }
    }

    /// Removes the account `id`; whether there was one.
    pub fn delete_user(&mut self, id: &str) -> (r: bool)
        requires
            old(self).store.wf(),
        ensures
            final(self).store.wf(),
            r == has_id(old(self).store@, id@),
            !r ==> final(self).store@ == old(self).store@,
            r ==> exists|i: int| 0 <= i < old(self).store@.len() && old(self).store@[i].id == id@
                && #[trigger] final(self).store@ == old(self).store@.remove(i),
    {
        self.store.remove(id)
    }
}

} // verus!
