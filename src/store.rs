//! Accounts and the in-memory credential store.

use vstd::prelude::*;
use crate::role::UserRoleDto;
use crate::text::{lower_of, lowercase};

verus! {

/// A registered account.
#[derive(Debug)]
pub struct User {
    pub id: String,
    pub email: String,
    pub name: String,
    /// bcrypt digest of the password; never handed out in a response.
    pub password_hash: String,
    pub role: UserRoleDto,
    /// Creation time, epoch seconds.
    pub created_at: i64,
    /// Time of the last change, epoch seconds.
    pub updated_at: i64,
}

/// The value of a `User`.
pub struct UserModel {
    pub id: Seq<char>,
    pub email: Seq<char>,
    pub name: Seq<char>,
    pub password_hash: Seq<char>,
    pub role: UserRoleDto,
    pub created_at: i64,
    pub updated_at: i64,
}

impl View for User {
    type V = UserModel;

    open spec fn view(&self) -> UserModel {
        UserModel {
            id: self.id@,
            email: self.email@,
            name: self.name@,
            password_hash: self.password_hash@,
            role: self.role,
            created_at: self.created_at,
            updated_at: self.updated_at,
        }
    }
}

impl User {
    /// A copy of the account.
    pub fn duplicate(&self) -> (r: User)
        ensures
            r@ == self@,
    {
        User {
            id: self.id.clone(),
            email: self.email.clone(),
            name: self.name.clone(),
            password_hash: self.password_hash.clone(),
            role: self.role,
            created_at: self.created_at,
            updated_at: self.updated_at,
        }
    }
}

/// Whether two e-mail addresses are the same address, case ignored.
pub open spec fn same_email(a: Seq<char>, b: Seq<char>) -> bool {
    lower_of(a) == lower_of(b)
}

/// Whether some account of `users` has the e-mail address `email`, case ignored.
pub open spec fn has_email(users: Seq<UserModel>, email: Seq<char>) -> bool {
    exists|i: int| 0 <= i < users.len() && #[trigger] same_email(users[i].email, email)
}

/// Whether some account of `users` has the identifier `id`.
pub open spec fn has_id(users: Seq<UserModel>, id: Seq<char>) -> bool {
    exists|i: int| 0 <= i < users.len() && #[trigger] users[i].id == id
}

/// No two accounts share an e-mail address (case ignored) or an identifier.
pub open spec fn distinct_accounts(users: Seq<UserModel>) -> bool {
    forall|i: int, j: int|
        0 <= i < users.len() && 0 <= j < users.len() && i != j ==> !same_email(#[trigger] users[i].email, #[trigger] users[j].email)
            && users[i].id != users[j].id
}

proof fn lemma_distinct_at(users: Seq<UserModel>, a: int, b: int)
    requires
        distinct_accounts(users),
        0 <= a < users.len(),
        0 <= b < users.len(),
        a != b,
    ensures
        users[a].id != users[b].id,
        !same_email(users[a].email, users[b].email),
{
    assert(!same_email(users[a].email, users[b].email));
}

proof fn lemma_distinct_remove(users: Seq<UserModel>, k: int)
    requires
        distinct_accounts(users),
        0 <= k < users.len(),
    ensures
        distinct_accounts(users.remove(k)),
{
    let r = users.remove(k);
    assert(r.len() == users.len() - 1);
    assert forall|a: int| 0 <= a < r.len() implies #[trigger] r[a] == users[if a < k { a } else { a + 1 }] by {
    }
    assert forall|a: int, b: int| 0 <= a < r.len() && 0 <= b < r.len() && a != b implies
        !same_email(#[trigger] r[a].email, #[trigger] r[b].email) && r[a].id != r[b].id by {
        let a2 = if a < k { a } else { a + 1 };
        let b2 = if b < k { b } else { b + 1 };
        assert(r[a] == users[a2]);
        assert(r[b] == users[b2]);
        lemma_distinct_at(users, a2, b2);
    }
    assert(distinct_accounts(r));
}

struct Entry {
    key: String,
    user: User,
}

/// Accounts in order of registration, unique by e-mail address (case
/// ignored) and by identifier.
pub struct CredentialStore {
    entries: Vec<Entry>,
}

/// Why the store refused a change.
#[derive(Debug, Clone, Copy, PartialEq, Eq, Structural)]
pub enum StoreError {
    /// Another account already has the e-mail address.
    EmailTaken,
    /// Another account already has the identifier.
    IdTaken,
}

impl CredentialStore {
    /// Each stored key is the folded e-mail address of its account, and the
    /// accounts are distinct.
    pub closed spec fn wf(&self) -> bool {
        &&& forall|i: int| 0 <= i < self.entries@.len() ==> #[trigger] self.entries@[i].key@ == lower_of(self.entries@[i].user.email@)
        &&& distinct_accounts(self@)
    }

    /// The accounts, in order of registration.
    pub closed spec fn view(&self) -> Seq<UserModel> {
        Seq::new(self.entries@.len(), |i: int| self.entries@[i].user@)
    }

    /// An empty store.
    pub fn new() -> (r: CredentialStore)
        ensures
            r@ == Seq::<UserModel>::empty(),
            r.wf(),
    {
        let r = CredentialStore { entries: Vec::new() };
        assert(r@ =~= Seq::<UserModel>::empty());
        r
    }

    /// The number of accounts; no two of them share an e-mail address
    /// (case ignored) or an identifier.
    pub fn len(&self) -> (r: usize)
        requires
            self.wf(),
        ensures
            r == self@.len(),
            distinct_accounts(self@),
    {
        self.entries.len()
    }

    /// The position of the account with the e-mail address `email`, case
    /// ignored.
    pub fn position_of_email(&self, email: &str) -> (r: Option<usize>)
        requires
            self.wf(),
        ensures
            r matches Some(i) ==> i < self@.len() && same_email(self@[i as int].email, email@),
            r is None ==> !has_email(self@, email@),
    {
        let key = lowercase(email);
        let mut i: usize = 0;
        while i < self.entries.len()
            invariant
                i <= self.entries@.len(),
                key@ == lower_of(email@),
                forall|j: int| 0 <= j < self.entries@.len() ==> #[trigger] self.entries@[j].key@ == lower_of(self.entries@[j].user.email@),
                forall|j: int| 0 <= j < i ==> !same_email(#[trigger] self@[j].email, email@),
            decreases self.entries@.len() - i,
        {
            if self.entries[i].key == key {
                return Some(i);
            }
            i += 1;
        }
        None
    }

    /// The position of the account with identifier `id`.
    pub fn position_of_id(&self, id: &str) -> (r: Option<usize>)
        requires
            self.wf(),
        ensures
            r matches Some(i) ==> i < self@.len() && self@[i as int].id == id@,
            r is None ==> !has_id(self@, id@),
    {
        let wanted = id.to_owned();
        let mut i: usize = 0;
        while i < self.entries.len()
            invariant
                i <= self.entries@.len(),
                wanted@ == id@,
                forall|j: int| 0 <= j < i ==> #[trigger] self@[j].id != id@,
            decreases self.entries@.len() - i,
        {
            if self.entries[i].user.id == wanted {
                return Some(i);
            }
            i += 1;
        }
        None
    }

    /// A copy of the account at position `i`.
    pub fn get(&self, i: usize) -> (r: User)
        requires
            self.wf(),
            i < self@.len(),
        ensures
            r@ == self@[i as int],
    {
        self.entries[i].user.duplicate()
    }

    /// Adds an account, unless its e-mail address (case ignored) or its
    /// identifier is taken.
    pub fn insert(&mut self, user: User) -> (r: Result<(), StoreError>)
        requires
            old(self).wf(),
        ensures
            final(self).wf(),
            has_email(old(self)@, user.email@) ==> r == Err::<(), StoreError>(StoreError::EmailTaken),
            !has_email(old(self)@, user.email@) && has_id(old(self)@, user.id@) ==> r == Err::<(), StoreError>(StoreError::IdTaken),
            r is Ok <==> !has_email(old(self)@, user.email@) && !has_id(old(self)@, user.id@),
            r is Ok ==> final(self)@ == old(self)@.push(user@),
            r is Err ==> final(self)@ == old(self)@,
    {
        if self.position_of_email(user.email.as_str()).is_some() {
            return Err(StoreError::EmailTaken);
        }
        if self.position_of_id(user.id.as_str()).is_some() {
            return Err(StoreError::IdTaken);
        }
        let key = lowercase(user.email.as_str());
        let ghost before = self@;
        let ghost u = user@;
        self.entries.push(Entry { key, user });
        proof {
            assert(self@ =~= before.push(u));
            assert forall|i: int| 0 <= i < self.entries@.len() implies #[trigger] self.entries@[i].key@ == lower_of(self.entries@[i].user.email@) by {
                if i < before.len() {
                    assert(self.entries@[i] == old(self).entries@[i]);
                }
            }
            assert forall|i: int, j: int|
                0 <= i < self@.len() && 0 <= j < self@.len() && i != j implies !same_email(#[trigger] self@[i].email, #[trigger] self@[j].email)
                    && self@[i].id != self@[j].id by {
                if i == before.len() as int {
                    assert(!same_email(before[j].email, u.email));
                } else if j == before.len() as int {
                    assert(!same_email(before[i].email, u.email));
                }
            }
        }
        Ok(())
    }

    /// Copies of the accounts from position `offset` on (none skipped when
    /// `None`), at most `limit` of them (all when `None`).
    pub fn list(&self, limit: Option<u64>, offset: Option<u64>) -> (r: Vec<User>)
        requires
            self.wf(),
        ensures
            views(r@) == page(self@, limit, offset),
    {
        let n = self.entries.len();
        let start: usize = match offset {
            Some(o) => if o < n as u64 { o as usize } else { n },
            None => 0,
        };
        let end: usize = match limit {
            Some(l) => if l < (n - start) as u64 { start + l as usize } else { n },
            None => n,
        };
        let mut out: Vec<User> = Vec::new();
        let mut i: usize = start;
        while i < end
            invariant
                start <= i <= end <= self.entries@.len(),
                views(out@) == self@.subrange(start as int, i as int),
            decreases end - i,
        {
            let ghost prev = out@;
            let u = self.entries[i].user.duplicate();
            out.push(u);
            assert(views(out@) =~= views(prev).push(self@[i as int]));
            assert(views(out@) =~= self@.subrange(start as int, i + 1));
            i += 1;
        }
        out
    }

    /// Copies of the accounts of role `role`, in order.
    pub fn with_role(&self, role: UserRoleDto) -> (r: Vec<User>)
        requires
            self.wf(),
        ensures
            views(r@) == of_role(self@, role),
    {
        let mut out: Vec<User> = Vec::new();
        let mut i: usize = 0;
        while i < self.entries.len()
            invariant
                i <= self.entries@.len(),
                views(out@) == of_role(self@.subrange(0, i as int), role),
            decreases self.entries@.len() - i,
        {
            let ghost before = out@;
            if self.entries[i].user.role == role {
                out.push(self.entries[i].user.duplicate());
            }
            proof {
                let p = self@.subrange(0, i + 1);
                assert(p.drop_last() =~= self@.subrange(0, i as int));
                assert(views(out@) =~= of_role(p, role));
            }
            i += 1;
        }
        assert(self@.subrange(0, self@.len() as int) =~= self@);
        out
    }

    /// Changes the name and e-mail address of the account `id`, never its
    /// role, and stamps it with `now`. `Ok(None)` when there is no such
    /// account; `Conflict` when another account has the new address (case
    /// ignored). On any outcome but a change the store is unchanged.
    pub fn update_profile(
        &mut self,
        id: &str,
        name: Option<String>,
        email: Option<String>,
        now: i64,
    ) -> (r: Result<Option<User>, StoreError>)
        requires
            old(self).wf(),
        ensures
            final(self).wf(),
            !has_id(old(self)@, id@) ==> (r matches Ok(None) && final(self)@ == old(self)@),
            r matches Ok(None) ==> !has_id(old(self)@, id@),
            r matches Ok(Some(u)) ==> exists|i: int| 0 <= i < old(self)@.len() && old(self)@[i].id == id@
                && #[trigger] final(self)@ == old(self)@.update(i, u@)
                && u@ == (UserModel {
                    name: match name { Some(x) => x@, None => old(self)@[i].name },
                    email: match email { Some(x) => x@, None => old(self)@[i].email },
                    updated_at: now,
                    ..old(self)@[i]
                }),
            r is Err ==> final(self)@ == old(self)@ && r == Err::<Option<User>, StoreError>(StoreError::EmailTaken),
            r is Err <==> has_id(old(self)@, id@) && email_taken_by_other(old(self)@, id@, email),
    {
        let i = match self.position_of_id(id) {
            Some(i) => i,
            None => return Ok(None),
        };
        let ghost before = self@;
        let ghost d = distinct_accounts(before);
        let old_user = self.entries[i].user.duplicate();
        let ghost ev: Option<Seq<char>> = if email is Some { Some(email->Some_0@) } else { None };
        proof {
            assert(before[i as int].id == id@);
            assert(has_id(before, id@));
        }
        let new_email = match email {
            Some(e) => {
                let key = lowercase(e.as_str());
                assert(email_taken_by_other(old(self)@, id@, email) == email_used_by_other(before, id@, e@));
                let mut j: usize = 0;
                while j < self.entries.len()
                    invariant
                        j <= self.entries@.len(),
                        self@ == before,
                        self.wf(),
                        i < before.len(),
                        before[i as int].id == id@,
                        key@ == lower_of(e@),
                        before == old(self)@,
                        email_taken_by_other(old(self)@, id@, email) == email_used_by_other(before, id@, e@),
                        forall|k: int| 0 <= k < j && k != i ==> !#[trigger] same_email(before[k].email, e@),
                    decreases self.entries@.len() - j,
                {
                    if j != i && self.entries[j].key == key {
                        proof {
                            lemma_distinct_at(before, j as int, i as int);
                            assert(same_email(before[j as int].email, e@));
                            assert(before[j as int].id != id@);
                            assert(0 <= j < before.len());
                            assert(email_used_by_other(before, id@, e@));

                        }
                        return Err(StoreError::EmailTaken);
                    }
                    j += 1;
                }
                proof {
                    assert forall|k: int| 0 <= k < before.len() && before[k].id != id@ implies !#[trigger] same_email(before[k].email, e@) by {
                        if k == i as int {
                        }
                    }
                    assert(!email_used_by_other(before, id@, e@));
                }
                e
            },
            None => old_user.email.clone(),
        };
        let new_name = match name {
            Some(x) => x,
            None => old_user.name.clone(),
        };
        let updated = User {
            id: old_user.id,
            email: new_email,
            name: new_name,
            password_hash: old_user.password_hash,
            role: old_user.role,
            created_at: old_user.created_at,
            updated_at: now,
        };
        let key = lowercase(updated.email.as_str());
        let copy = updated.duplicate();
        let ghost u = updated@;
        self.entries.remove(i);
        self.entries.insert(i, Entry { key, user: updated });
        proof {
            assert(self@ =~= before.update(i as int, u));
            assert forall|k: int| 0 <= k < self.entries@.len() implies #[trigger] self.entries@[k].key@ == lower_of(self.entries@[k].user.email@) by {
                if k != i as int {
                    assert(self.entries@[k] == old(self).entries@[k]);
                }
            }
            assert forall|a: int, b: int|
                0 <= a < self@.len() && 0 <= b < self@.len() && a != b implies !same_email(#[trigger] self@[a].email, #[trigger] self@[b].email)
                    && self@[a].id != self@[b].id by {
                if a == i as int {
                    lemma_distinct_at(before, b, a);
                    if ev is None {
                        assert(self@[a].email == before[a].email);
                    } else {
                        assert(!same_email(before[b].email, ev->Some_0));
                    }
                } else if b == i as int {
                    lemma_distinct_at(before, a, b);
                    if ev is None {
                        assert(self@[b].email == before[b].email);
                    } else {
                        assert(!same_email(before[a].email, ev->Some_0));
                    }
                } else {
                    lemma_distinct_at(before, a, b);
                }
            }
        }
        Ok(Some(copy))
    }

    /// Removes the account `id`; whether there was one.
    pub fn remove(&mut self, id: &str) -> (r: bool)
        requires
            old(self).wf(),
        ensures
            final(self).wf(),
            r == has_id(old(self)@, id@),
            !r ==> final(self)@ == old(self)@,
            r ==> exists|i: int| 0 <= i < old(self)@.len() && old(self)@[i].id == id@
                && #[trigger] final(self)@ == old(self)@.remove(i),
    {
        match self.position_of_id(id) {
            None => false,
            Some(i) => {
                let ghost before = self@;
                let ghost d = distinct_accounts(before);
                assert(d);
                self.entries.remove(i);
                proof {
                    assert(self@ =~= before.remove(i as int));
                    assert forall|k: int| 0 <= k < self.entries@.len() implies #[trigger] self.entries@[k].key@ == lower_of(self.entries@[k].user.email@) by {
                        if k < i as int {
                            assert(self.entries@[k] == old(self).entries@[k]);
                        } else {
                            assert(self.entries@[k] == old(self).entries@[k + 1]);
                        }
                    }
                    lemma_distinct_remove(before, i as int);
                    assert(distinct_accounts(self@));
                    assert(self.wf());
                }
                true
            },
        }
    }
}

/// Whether `email` is given and some account other than `id` has it (case
/// ignored).
pub open spec fn email_taken_by_other(users: Seq<UserModel>, id: Seq<char>, email: Option<String>) -> bool {
    match email {
        Some(e) => email_used_by_other(users, id, e@),
        None => false,
    }
}

/// Whether some account other than `id` has the address `email` (case
/// ignored).
pub open spec fn email_used_by_other(users: Seq<UserModel>, id: Seq<char>, email: Seq<char>) -> bool {
    exists|j: int| 0 <= j < users.len() && users[j].id != id && #[trigger] same_email(users[j].email, email)
}

/// The values of a sequence of accounts.
pub open spec fn views(us: Seq<User>) -> Seq<UserModel> {
    Seq::new(us.len(), |i: int| us[i]@)
}

/// The accounts of `users` from `offset` on (none skipped when `None`), at
/// most `limit` of them (all when `None`).
pub open spec fn page(users: Seq<UserModel>, limit: Option<u64>, offset: Option<u64>) -> Seq<UserModel> {
    let start: int = match offset {
        Some(o) => if o < users.len() { o as int } else { users.len() as int },
        None => 0,
    };
    let end: int = match limit {
        Some(l) => if l < users.len() - start { start + l } else { users.len() as int },
        None => users.len() as int,
    };
    users.subrange(start, end)
}

/// The accounts of `users` with role `role`, in order.
pub open spec fn of_role(users: Seq<UserModel>, role: UserRoleDto) -> Seq<UserModel>
    decreases users.len(),
{
    if users.len() == 0 {
        Seq::empty()
    } else if users.last().role == role {
        of_role(users.drop_last(), role).push(users.last())
    } else {
        of_role(users.drop_last(), role)
    }
}

} // verus!
