//! User model, repository trait, and in-memory implementation.

use vstd::hash_map::{HashMapWithView, StringHashMap};
use vstd::prelude::*;

use crate::utils::chars::{spec_to_lowercase, to_lowercase};

verus! {

broadcast use vstd::std_specs::hash::group_hash_axioms;

/// A registered user.
///
/// `password_hash` stores a bcrypt hash; the plaintext password is never
/// kept. `nickname` is non-empty (it defaults to the email prefix); `phone`
/// and `avatar` are optional. Times are milliseconds since the epoch.
#[derive(Debug)]
pub struct User {
    pub id: u128,
    pub email: String,
    pub password_hash: String,
    pub nickname: String,
    pub phone: Option<String>,
    pub avatar: Option<String>,
    pub created_at: i64,
    pub updated_at: i64,
}

/// A copy of an optional string.
pub fn clone_opt_string(s: &Option<String>) -> (r: Option<String>)
    ensures
        r == *s,
{
    match s {
        Some(v) => Some(v.clone()),
        None => None,
    }
}

impl Clone for User {
    fn clone(&self) -> (r: Self)
        ensures
            r == *self,
    {
        User {
            id: self.id,
            email: self.email.clone(),
            password_hash: self.password_hash.clone(),
            nickname: self.nickname.clone(),
            phone: clone_opt_string(&self.phone),
            avatar: clone_opt_string(&self.avatar),
            created_at: self.created_at,
            updated_at: self.updated_at,
        }
    }
}

/// Error returned by repository operations.
#[derive(Debug, Clone, Copy, PartialEq, Eq, Structural)]
pub enum RepoError {
    EmailAlreadyExists,
    Internal,
}

/// Users keyed by ID.
pub type UserTable = Map<u128, User>;

/// User IDs keyed by lowercased email.
pub type EmailIndex = Map<Seq<char>, u128>;

/// The user an email lookup finds: the one the lowercased email is indexed to.
pub open spec fn lookup_email(users: UserTable, index: EmailIndex, email: Seq<char>) -> Option<User> {
    let key = spec_to_lowercase(email);
    if index.contains_key(key) && users.contains_key(index[key]) {
        Some(users[index[key]])
    } else {
        None
    }
}

/// The user with the given ID.
pub open spec fn lookup_id(users: UserTable, id: u128) -> Option<User> {
    if users.contains_key(id) {
        Some(users[id])
    } else {
        None
    }
}

/// `u` with new profile fields and update time.
pub open spec fn with_profile(
    u: User,
    nickname: String,
    phone: Option<String>,
    avatar: Option<String>,
    now: i64,
) -> User {
    User {
        id: u.id,
        email: u.email,
        password_hash: u.password_hash,
        nickname,
        phone,
        avatar,
        created_at: u.created_at,
        updated_at: now,
    }
}

/// `u` with a new password hash and update time.
pub open spec fn with_password(u: User, hash: String, now: i64) -> User {
    User {
        id: u.id,
        email: u.email,
        password_hash: hash,
        nickname: u.nickname,
        phone: u.phone,
        avatar: u.avatar,
        created_at: u.created_at,
        updated_at: now,
    }
}

/// Persistence abstraction for users: a table by ID and an index from
/// lowercased email to ID, which makes emails unique up to case.
pub trait UserRepository: Sized {
    /// The stored users.
    spec fn users(&self) -> UserTable;

    /// The email index.
    spec fn email_index(&self) -> EmailIndex;

    /// The store's internal consistency.
    spec fn wf(&self) -> bool;

    /// What well-formedness says of the index: every stored user is indexed
    /// under its lowercased email, and every indexed ID is a stored user.
    proof fn lemma_index(&self)
        requires
            self.wf(),
        ensures
            forall|id: u128| #[trigger] self.users().contains_key(id) ==> {
                let key = spec_to_lowercase(self.users()[id].email@);
                self.email_index().contains_key(key) && self.email_index()[key] == id
            },
            forall|k: Seq<char>| #[trigger] self.email_index().contains_key(k) ==> self.users().contains_key(
                self.email_index()[k],
            ),
    ;

    /// Whether `insert` may fail for a reason of the store's own (such as a
    /// storage error), reported as `Internal`.
    spec fn storage_may_fail(&self) -> bool;

    /// Insert a new user. Returns `EmailAlreadyExists` if the lowercased email
    /// is taken; `Internal`, only where the store may fail, leaves it
    /// unchanged.
    fn insert(&mut self, user: User) -> (r: Result<User, RepoError>)
        requires
            old(self).wf(),
        ensures
            final(self).wf(),
            final(self).storage_may_fail() == old(self).storage_may_fail(),
            match r {
                Ok(u) => {
                    &&& u == user
                    &&& !old(self).email_index().contains_key(spec_to_lowercase(user.email@))
                    &&& final(self).users() == old(self).users().insert(user.id, user)
                    &&& final(self).email_index() == old(self).email_index().insert(
                        spec_to_lowercase(user.email@),
                        user.id,
                    )
                },
                Err(RepoError::EmailAlreadyExists) => {
                    &&& old(self).email_index().contains_key(spec_to_lowercase(user.email@))
                    &&& final(self).users() == old(self).users()
                    &&& final(self).email_index() == old(self).email_index()
                },
                Err(RepoError::Internal) => {
                    &&& old(self).storage_may_fail()
                    &&& final(self).users() == old(self).users()
                    &&& final(self).email_index() == old(self).email_index()
                },
            },
    ;

    /// Look up a user by email, ignoring case.
    fn find_by_email(&self, email: &str) -> (r: Option<User>)
        requires
            self.wf(),
        ensures
            r == lookup_email(self.users(), self.email_index(), email@),
    ;

    /// Look up a user by ID.
    fn find_by_id(&self, id: u128) -> (r: Option<User>)
        requires
            self.wf(),
        ensures
            r == lookup_id(self.users(), id),
    ;

    /// Update nickname / phone / avatar, stamping the update time `now`.
    /// Returns the updated user, or `None` if no user has `id`.
    fn update_profile(
        &mut self,
        id: u128,
        nickname: String,
        phone: Option<String>,
        avatar: Option<String>,
        now: i64,
    ) -> (r: Option<User>)
        requires
            old(self).wf(),
        ensures
            final(self).wf(),
            final(self).storage_may_fail() == old(self).storage_may_fail(),
            final(self).email_index() == old(self).email_index(),
            match r {
                Some(u) => {
                    &&& old(self).users().contains_key(id)
                    &&& u == with_profile(old(self).users()[id], nickname, phone, avatar, now)
                    &&& final(self).users() == old(self).users().insert(id, u)
                },
                None => !old(self).users().contains_key(id) && final(self).users() == old(
                    self,
                ).users(),
            },
    ;

    /// Update the password hash, stamping the update time `now`. Returns
    /// `true` if a user was updated.
    fn update_password(&mut self, id: u128, new_hash: String, now: i64) -> (r: bool)
        requires
            old(self).wf(),
        ensures
            final(self).wf(),
            final(self).storage_may_fail() == old(self).storage_may_fail(),
            final(self).email_index() == old(self).email_index(),
            r == old(self).users().contains_key(id),
            r ==> final(self).users() == old(self).users().insert(
                id,
                with_password(old(self).users()[id], new_hash, now),
            ),
            !r ==> final(self).users() == old(self).users(),
    ;
}

/// In-memory user repository: users by ID, and an index from lowercased
/// email to ID for lookups without scanning.
pub struct InMemoryUserRepository {
    users: HashMapWithView<u128, User>,
    email_index: StringHashMap<u128>,
}

impl InMemoryUserRepository {
    pub fn new() -> (r: Self)
        ensures
            r.wf(),
            !r.storage_may_fail(),
            r.users() == Map::<u128, User>::empty(),
            r.email_index() == Map::<Seq<char>, u128>::empty(),
    {
        InMemoryUserRepository { users: HashMapWithView::new(), email_index: StringHashMap::new() }
    }
}

impl UserRepository for InMemoryUserRepository {
    closed spec fn users(&self) -> UserTable {
        self.users@
    }

    closed spec fn email_index(&self) -> EmailIndex {
        self.email_index@
    }

    /// Every indexed ID belongs to a stored user, and every stored user is
    /// indexed under its lowercased email.
    closed spec fn wf(&self) -> bool {
        &&& forall|k: Seq<char>| #[trigger] self.email_index@.contains_key(k) ==> self.users@.contains_key(
            self.email_index@[k],
        )
        &&& forall|id: u128| #[trigger] self.users@.contains_key(id) ==> {
            let key = spec_to_lowercase(self.users@[id].email@);
            self.email_index@.contains_key(key) && self.email_index@[key] == id
        }
    }

    proof fn lemma_index(&self) {
    }

    /// Storing in memory cannot fail.
    closed spec fn storage_may_fail(&self) -> bool {
        false
    }

    /// Never `Internal`: `Ok` exactly when the lowercased email is not
    /// indexed; in particular a stored user with that lowercased email makes
    /// it `EmailAlreadyExists`.
    fn insert(&mut self, user: User) -> (r: Result<User, RepoError>)
        ensures
            !(r matches Err(RepoError::Internal)),
            r is Ok <==> !old(self).email_index().contains_key(spec_to_lowercase(user.email@)),
            (exists|id: u128|
                old(self).users().contains_key(id) && #[trigger] spec_to_lowercase(old(self).users()[id].email@)
                    == spec_to_lowercase(user.email@)) ==> r matches Err(RepoError::EmailAlreadyExists),
    {
        let email = to_lowercase(user.email.as_str());
        if self.email_index.contains_key(email.as_str()) {
            return Err(RepoError::EmailAlreadyExists);
        }
        self.email_index.insert(email, user.id);
        self.users.insert(user.id, user.clone());
        Ok(user)
    }

    fn find_by_email(&self, email: &str) -> (r: Option<User>) {
        let key = to_lowercase(email);
        let id = match self.email_index.get(key.as_str()) {
            Some(id) => *id,
            None => return None,
        };
        match self.users.get(&id) {
            Some(u) => Some(u.clone()),
            None => None,
        }
    }

    fn find_by_id(&self, id: u128) -> (r: Option<User>) {
        match self.users.get(&id) {
            Some(u) => Some(u.clone()),
            None => None,
        }
    }

    fn update_profile(
        &mut self,
        id: u128,
        nickname: String,
        phone: Option<String>,
        avatar: Option<String>,
        now: i64,
    ) -> (r: Option<User>) {
        let mut user = match self.users.get(&id) {
            Some(u) => u.clone(),
            None => return None,
        };
        user.nickname = nickname;
        user.phone = phone;
        user.avatar = avatar;
        user.updated_at = now;
        self.users.insert(id, user.clone());
        Some(user)
    }

    fn update_password(&mut self, id: u128, new_hash: String, now: i64) -> (r: bool) {
        let mut user = match self.users.get(&id) {
            Some(u) => u.clone(),
            None => return false,
        };
        user.password_hash = new_hash;
        user.updated_at = now;
        self.users.insert(id, user);
        true
    }
}

} // verus!
