//! Users, password verification, and login sessions.
//!
//! User records are kept in one ordered collection with unique names;
//! sessions are a table from opaque session id to the owning user and
//! the client address the session was created from.  Password hashes
//! are PHC strings produced and checked by argon2; what the algorithm
//! computes is named, not restated, and every authentication contract
//! speaks through that name.
//!
//! The surrounding application persists both collections as single JSON
//! documents, rewriting the whole document after every mutation, and
//! feeds them back in at startup.

use vstd::prelude::*;

use argon2::password_hash::{PasswordHash, PasswordHasher, PasswordVerifier, SaltString};
use argon2::Argon2;
use rand_core::OsRng;

use crate::clock::now_millis;
use crate::keyed::{has_key, insert_pair, key_at, lemma_key_at_lookup, lemma_insert_pair,
    lemma_remove_pair, keys_unique, remove_pair, str_eq, value_of};

verus! {

/// Passwords are capped well below argon2's input limit (2^32 - 1
/// bytes), so that hashing can never fail on length.
pub const MAX_PASSWORD_LEN: usize = 0x4000_0000;

/// What argon2 decides for a password against a PHC hash string: `true`
/// exactly when parsing the hash and verifying the password succeeds.
/// The decision depends on the two strings alone.
pub uninterp spec fn argon2_verifies(password: Seq<char>, phc_hash: Seq<char>) -> bool;

/// What `str::trim` returns: the input without leading and trailing
/// whitespace.  The result depends on the characters alone.
pub uninterp spec fn trimmed(s: Seq<char>) -> Seq<char>;

/// Relies on `str::trim` from std: the result is a substring of the
/// input, so it is never longer.
#[verifier::external_body]
fn trim(s: &str) -> (r: String)
    ensures
        r@ == trimmed(s@),
        r@.len() <= s@.len(),
{
    s.trim().to_owned()
}

/// The capabilities a user can hold.
#[derive(Clone, Copy, Debug, PartialEq, Eq, Structural)]
pub enum UserPermissions {
    Admin,
    Editor,
}

/// The failures identity operations can report.
#[derive(Clone, Copy, Debug, PartialEq, Eq, Structural)]
pub enum IdentityErrorKind {
    UserAlreadyExist,
    UserNotFound,
    AuthFailed,
}

/// An identity error.
#[derive(Clone, Copy, Debug)]
pub struct IdentityError {
    kind: IdentityErrorKind,
}

impl IdentityError {
    pub closed spec fn spec_kind(self) -> IdentityErrorKind {
        self.kind
    }

    pub fn kind(&self) -> (k: IdentityErrorKind)
        ensures
            k == self.spec_kind(),
    {
        self.kind
    }

    /// A short description of the error.
    pub fn message(&self) -> (m: String)
        ensures
            m@ == "Identity Error"@,
    {
        "Identity Error".to_owned()
    }
}

/// The mathematical shape of a user record.
pub struct UserView {
    pub user_name: Seq<char>,
    pub password_hash: Seq<char>,
    pub password_update_date: int,
    pub created_date: int,
    pub last_login_date: int,
    pub enabled: bool,
    pub permissions: Seq<UserPermissions>,
}

/// A persisted user record.
#[derive(Debug)]
pub struct User {
    user_name: String,
    password_hash: String,
    password_update_date: crate::Timestamp,
    created_date: crate::Timestamp,
    last_login_date: crate::Timestamp,
    enabled: bool,
    permissions: Vec<UserPermissions>,
}

impl View for User {
    type V = UserView;

    closed spec fn view(&self) -> UserView {
        UserView {
            user_name: self.user_name@,
            password_hash: self.password_hash@,
            password_update_date: self.password_update_date as int,
            created_date: self.created_date as int,
            last_login_date: self.last_login_date as int,
            enabled: self.enabled,
            permissions: self.permissions@,
        }
    }
}

/// What a freshly created account looks like: the given name, a hash
/// that verifies against the given password, enabled, no permissions
/// yet, and all three dates stamped with the moment of creation.
pub open spec fn is_new_user(u: UserView, name: Seq<char>, password: Seq<char>) -> bool {
    &&& u.user_name == name
    &&& argon2_verifies(password, u.password_hash)
    &&& u.enabled
    &&& u.permissions == Seq::<UserPermissions>::empty()
    &&& u.password_update_date == u.created_date
    &&& u.last_login_date == u.created_date
}

impl User {
    /// A fresh account for `user`, hashing `password` with a new
    /// random salt.
    pub fn new(user: &str, password: &str) -> (r: Self)
        requires
            password@.len() < MAX_PASSWORD_LEN,
        ensures
            is_new_user(r@, user@, password@),
    {
        let password_hash = Self::hash_password(password);
        let now = now_millis();
        let r = User {
            user_name: user.to_owned(),
            password_hash,
            password_update_date: now,
            created_date: now,
            last_login_date: now,
            enabled: true,
            permissions: Vec::new(),
        };
        proof {
            assert(r@.permissions =~= Seq::<UserPermissions>::empty());
        }
        r
    }

    /// Relies on argon2's `PasswordHasher::hash_password` with a salt
    /// from `SaltString::generate(OsRng)`: the returned PHC string
    /// verifies against the hashed password, whatever salt was drawn.
    /// The password is within argon2's length limit, so hashing cannot
    /// fail.
    #[verifier::external_body]
    pub fn hash_password(password: &str) -> (r: String)
        requires
            password@.len() < MAX_PASSWORD_LEN,
        ensures
            argon2_verifies(password@, r@),
    {
        let salt = SaltString::generate(&mut OsRng);
        match Argon2::default().hash_password(password.as_bytes(), &salt) {
            Ok(hash) => hash.to_string(),
            // Unreachable: the salt is freshly generated and the
            // password is within the length limit.
            Err(_) => String::new(),
        }
    }

    /// Relies on `PasswordHash::new` and argon2's
    /// `PasswordVerifier::verify_password`: whether the stored PHC
    /// string parses and the password verifies against it.
    #[verifier::external_body]
    fn check_password(password: &str, phc_hash: &str) -> (r: bool)
        ensures
            r == argon2_verifies(password@, phc_hash@),
    {
        match PasswordHash::new(phc_hash) {
            Ok(parsed) => Argon2::default().verify_password(password.as_bytes(), &parsed).is_ok(),
            Err(_) => false,
        }
    }

    /// Check `password` against this record's stored hash.
    pub fn authenticate(&self, password: &str) -> (r: Result<(), IdentityError>)
        ensures
            match r {
                Ok(()) => argon2_verifies(password@, self@.password_hash),
                Err(e) => {
                    &&& e.spec_kind() == IdentityErrorKind::AuthFailed
                    &&& !argon2_verifies(password@, self@.password_hash)
                },
            },
    {
        if Self::check_password(password, self.password_hash.as_str()) {
            Ok(())
        } else {
            Err(IdentityError { kind: IdentityErrorKind::AuthFailed })
        }
    }

    /// Grant `permission` unless the user already holds it.
    pub fn set_permission(&mut self, permission: UserPermissions)
        ensures
            final(self)@ == (UserView {
                permissions: if old(self)@.permissions.contains(permission) {
                    old(self)@.permissions
                } else {
                    old(self)@.permissions.push(permission)
                },
                ..old(self)@
            }),
    {
        let mut i: usize = 0;
        while i < self.permissions.len()
            invariant
                i <= self.permissions@.len(),
                forall|j: int| 0 <= j < i ==> self.permissions@[j] != permission,
                *self == *old(self),
            decreases self.permissions@.len() - i,
        {
            if self.permissions[i] == permission {
                return ;
            }
            i += 1;
        }
        proof {
            assert(!old(self)@.permissions.contains(permission));
        }
        self.permissions.push(permission);
    }

    /// A record read back from storage.
    pub fn from_record(
        user_name: String,
        password_hash: String,
        password_update_date: crate::Timestamp,
        created_date: crate::Timestamp,
        last_login_date: crate::Timestamp,
        enabled: bool,
        permissions: Vec<UserPermissions>,
    ) -> (r: User)
        ensures
            r@ == (UserView {
                user_name: user_name@,
                password_hash: password_hash@,
                password_update_date: password_update_date as int,
                created_date: created_date as int,
                last_login_date: last_login_date as int,
                enabled: enabled,
                permissions: permissions@,
            }),
    {
        User {
            user_name,
            password_hash,
            password_update_date,
            created_date,
            last_login_date,
            enabled,
            permissions,
        }
    }

    pub fn user_name(&self) -> (r: &String)
        ensures
            r@ == self@.user_name,
    {
        &self.user_name
    }

    pub fn password_hash(&self) -> (r: &String)
        ensures
            r@ == self@.password_hash,
    {
        &self.password_hash
    }

    pub fn password_update_date(&self) -> (r: crate::Timestamp)
        ensures
            r as int == self@.password_update_date,
    {
        self.password_update_date
    }

    pub fn created_date(&self) -> (r: crate::Timestamp)
        ensures
            r as int == self@.created_date,
    {
        self.created_date
    }

    pub fn last_login_date(&self) -> (r: crate::Timestamp)
        ensures
            r as int == self@.last_login_date,
    {
        self.last_login_date
    }

    pub fn enabled(&self) -> (r: bool)
        ensures
            r == self@.enabled,
    {
        self.enabled
    }

    pub fn permissions(&self) -> (r: &Vec<UserPermissions>)
        ensures
            r@ == self@.permissions,
    {
        &self.permissions
    }
}

/// Whether some record carries the name.
pub open spec fn has_user(s: Seq<UserView>, name: Seq<char>) -> bool {
    exists|i: int| 0 <= i < s.len() && (#[trigger] s[i]).user_name == name
}

/// The position of the record carrying `name`.
pub open spec fn user_index(s: Seq<UserView>, name: Seq<char>) -> int {
    choose|i: int| 0 <= i < s.len() && (#[trigger] s[i]).user_name == name
}

/// The record carrying `name`.
pub open spec fn user_named(s: Seq<UserView>, name: Seq<char>) -> UserView {
    s[user_index(s, name)]
}

/// All user names are pairwise distinct.
pub open spec fn user_names_unique(s: Seq<UserView>) -> bool {
    forall|i: int, j: int|
        0 <= i < s.len() && 0 <= j < s.len() && (#[trigger] s[i]).user_name == (
        #[trigger] s[j]).user_name ==> i == j
}

/// With distinct names, the record at position `i` is the record that
/// lookup by its name finds.
proof fn lemma_user_at_lookup(s: Seq<UserView>, i: int)
    requires
        user_names_unique(s),
        0 <= i < s.len(),
    ensures
        has_user(s, s[i].user_name),
        user_index(s, s[i].user_name) == i,
        user_named(s, s[i].user_name) == s[i],
{
    assert(has_user(s, s[i].user_name));
}

/// The persisted user collection.
pub struct Users {
    users: Vec<User>,
}

impl View for Users {
    type V = Seq<UserView>;

    closed spec fn view(&self) -> Seq<UserView> {
        self.users@.map_values(|u: User| u@)
    }
}

impl Users {
    /// Records carry pairwise-distinct user names.
    pub open spec fn wf(self) -> bool {
        user_names_unique(self@)
    }

    /// An empty collection.
    pub fn new() -> (r: Users)
        ensures
            r.wf(),
            r@ == Seq::<UserView>::empty(),
    {
        let r = Users { users: Vec::new() };
        proof {
            assert(r@ =~= Seq::<UserView>::empty());
        }
        r
    }

    /// Position of the record named `username`, if one exists.
    fn index_of(&self, username: &str) -> (r: Option<usize>)
        ensures
            match r {
                Some(i) => i < self@.len() && self@[i as int].user_name == username@,
                None => !has_user(self@, username@),
            },
    {
        let mut i: usize = 0;
        while i < self.users.len()
            invariant
                i <= self.users@.len(),
                forall|j: int| 0 <= j < i ==> (#[trigger] self.users@[j])@.user_name != username@,
            decreases self.users@.len() - i,
        {
            if str_eq(self.users[i].user_name.as_str(), username) {
                return Some(i);
            }
            i += 1;
        }
        proof {
            assert forall|j: int| 0 <= j < self@.len() implies (#[trigger] self@[j]).user_name
                != username@ by {
                assert(self.users@[j]@.user_name != username@);
            }
        }
        None
    }

    /// The record named `username`.
    pub fn get(&self, username: &str) -> (r: Result<&User, IdentityError>)
        requires
            self.wf(),
        ensures
            match r {
                Ok(u) => has_user(self@, username@) && u@ == user_named(self@, username@),
                Err(e) => {
                    &&& e.spec_kind() == IdentityErrorKind::UserNotFound
                    &&& !has_user(self@, username@)
                },
            },
    {
        match self.index_of(username) {
            Some(i) => {
                proof {
                    lemma_user_at_lookup(self@, i as int);
                }
                Ok(&self.users[i])
            },
            None => Err(IdentityError { kind: IdentityErrorKind::UserNotFound }),
        }
    }

    /// Create an account.  Name and password are stored trimmed; the
    /// name must not be taken.
    pub fn create(&mut self, username: &str, password: &str) -> (r: Result<&User, IdentityError>)
        requires
            old(self).wf(),
            password@.len() < MAX_PASSWORD_LEN,
        ensures
            final(self).wf(),
            match r {
                Ok(u) => {
                    &&& !has_user(old(self)@, trimmed(username@))
                    &&& is_new_user(u@, trimmed(username@), trimmed(password@))
                    &&& final(self)@ == old(self)@.push(u@)
                },
                Err(e) => {
                    &&& e.spec_kind() == IdentityErrorKind::UserAlreadyExist
                    &&& has_user(old(self)@, trimmed(username@))
                    &&& *final(self) == *old(self)
                },
            },
    {
        let name = trim(username);
        let pass = trim(password);
        match self.index_of(name.as_str()) {
            Some(i) => {
                proof {
                    assert(has_user(self@, trimmed(username@)));
                }
                Err(IdentityError { kind: IdentityErrorKind::UserAlreadyExist })
            },
            None => {
                let ghost pre = self@;
                let user = User::new(name.as_str(), pass.as_str());
                self.users.push(user);
                proof {
                    assert(self@ =~= pre.push(self.users@.last()@));
                    assert forall|i: int, j: int|
                        0 <= i < self@.len() && 0 <= j < self@.len() && (
                        #[trigger] self@[i]).user_name == (#[trigger] self@[j]).user_name
                        implies i == j by {
                        if i < pre.len() && j < pre.len() {
                            assert(pre[i].user_name == pre[j].user_name);
                        } else if i < pre.len() && j == pre.len() {
                            assert(has_user(pre, pre[i].user_name));
                        } else if j < pre.len() && i == pre.len() {
                            assert(has_user(pre, pre[j].user_name));
                        }
                    }
                }
                let n = self.users.len();
                Ok(&self.users[n - 1])
            },
        }
    }

    /// Delete the account named `username`, after checking `password`
    /// against it.
    pub fn delete(&mut self, username: &str, password: &str) -> (r: Result<(), IdentityError>)
        requires
            old(self).wf(),
        ensures
            final(self).wf(),
            match r {
                Ok(()) => {
                    &&& has_user(old(self)@, username@)
                    &&& argon2_verifies(password@, user_named(old(self)@, username@).password_hash)
                    &&& final(self)@ == old(self)@.remove(user_index(old(self)@, username@))
                },
                Err(e) => {
                    &&& *final(self) == *old(self)
                    &&& if has_user(old(self)@, username@) {
                        e.spec_kind() == IdentityErrorKind::AuthFailed && !argon2_verifies(
                            password@,
                            user_named(old(self)@, username@).password_hash,
                        )
                    } else {
                        e.spec_kind() == IdentityErrorKind::UserNotFound
                    }
                },
            },
    {
        match self.index_of(username) {
            Some(i) => {
                proof {
                    lemma_user_at_lookup(self@, i as int);
                }
                match self.users[i].authenticate(password) {
                    Ok(()) => {
                        let ghost pre = self@;
                        self.users.remove(i);
                        proof {
                            assert(self@ =~= pre.remove(i as int));
                            assert forall|a: int, b: int|
                                0 <= a < self@.len() && 0 <= b < self@.len() && (
                                #[trigger] self@[a]).user_name == (#[trigger] self@[b]).user_name
                                implies a == b by {
                                let a0 = if a < i { a } else { a + 1 };
                                let b0 = if b < i { b } else { b + 1 };
                                assert(pre[a0].user_name == self@[a].user_name);
                                assert(pre[b0].user_name == self@[b].user_name);
                            }
                        }
                        Ok(())
                    },
                    Err(e) => Err(e),
                }
            },
            None => Err(IdentityError { kind: IdentityErrorKind::UserNotFound }),
        }
    }

    /// Register a record read back from storage.  Its name must not be
    /// taken yet.
    pub fn load_user(&mut self, user: User)
        requires
            old(self).wf(),
            !has_user(old(self)@, user@.user_name),
        ensures
            final(self).wf(),
            final(self)@ == old(self)@.push(user@),
    {
        let ghost pre = self@;
        self.users.push(user);
        proof {
            assert(self@ =~= pre.push(self.users@.last()@));
            assert forall|i: int, j: int|
                0 <= i < self@.len() && 0 <= j < self@.len() && (#[trigger] self@[i]).user_name
                    == (#[trigger] self@[j]).user_name implies i == j by {
                if i < pre.len() && j < pre.len() {
                    assert(pre[i].user_name == pre[j].user_name);
                } else if i < pre.len() && j == pre.len() {
                    assert(has_user(pre, pre[i].user_name));
                } else if j < pre.len() && i == pre.len() {
                    assert(has_user(pre, pre[j].user_name));
                }
            }
        }
    }

    /// How many records the collection holds.
    pub fn user_count(&self) -> (r: usize)
        ensures
            r == self@.len(),
    {
        self.users.len()
    }

    /// The record at position `i`, in insertion order.
    pub fn user_at(&self, i: usize) -> (r: &User)
        requires
            i < self@.len(),
        ensures
            r@ == self@[i as int],
    {
        &self.users[i]
    }
}

/// The mathematical shape of a session record.
pub struct SessionView {
    pub username: Seq<char>,
    pub ip: Seq<char>,
    pub date: int,
}

/// A login session: the owning user, the client address it was created
/// from, and the moment of creation.
pub struct Session {
    username: String,
    ip: String,
    date: crate::Timestamp,
}

impl View for Session {
    type V = SessionView;

    closed spec fn view(&self) -> SessionView {
        SessionView { username: self.username@, ip: self.ip@, date: self.date as int }
    }
}

impl Session {
    pub fn new(username: String, ip: String, date: crate::Timestamp) -> (r: Session)
        ensures
            r@ == (SessionView { username: username@, ip: ip@, date: date as int }),
    {
        Session { username, ip, date }
    }

    pub fn username(&self) -> (r: &String)
        ensures
            r@ == self@.username,
    {
        &self.username
    }

    pub fn ip(&self) -> (r: &String)
        ensures
            r@ == self@.ip,
    {
        &self.ip
    }

    pub fn date(&self) -> (r: crate::Timestamp)
        ensures
            r as int == self@.date,
    {
        self.date
    }
}

struct SessionEntry {
    sessid: String,
    session: Session,
}

/// The session table.  Whether a session is bound to the client address
/// it was created from is a configuration choice, fixed at
/// construction.
pub struct Sessions {
    entries: Vec<SessionEntry>,
    bind_address: bool,
}

impl View for Sessions {
    type V = Seq<(Seq<char>, SessionView)>;

    closed spec fn view(&self) -> Seq<(Seq<char>, SessionView)> {
        self.entries@.map_values(|e: SessionEntry| (e.sessid@, e.session@))
    }
}

impl Sessions {
    /// Session ids are pairwise distinct.
    pub open spec fn wf(self) -> bool {
        keys_unique(self@)
    }

    /// Whether validation also checks the client address.
    pub closed spec fn spec_binds_address(self) -> bool {
        self.bind_address
    }

    /// An empty table.
    pub fn new(bind_address: bool) -> (r: Sessions)
        ensures
            r.wf(),
            r@ == Seq::<(Seq<char>, SessionView)>::empty(),
            r.spec_binds_address() == bind_address,
    {
        let r = Sessions { entries: Vec::new(), bind_address };
        proof {
            assert(r@ =~= Seq::<(Seq<char>, SessionView)>::empty());
        }
        r
    }

    /// Whether validation also checks the client address.
    pub fn binds_address(&self) -> (r: bool)
        ensures
            r == self.spec_binds_address(),
    {
        self.bind_address
    }

    /// Position of the entry for `sessid`, if one exists.
    fn find(&self, sessid: &str) -> (r: Option<usize>)
        ensures
            match r {
                Some(i) => i < self@.len() && key_at(self@, i as int) == sessid@,
                None => !has_key(self@, sessid@),
            },
    {
        let mut i: usize = 0;
        while i < self.entries.len()
            invariant
                i <= self.entries@.len(),
                forall|j: int| 0 <= j < i ==> (#[trigger] self.entries@[j]).sessid@ != sessid@,
            decreases self.entries@.len() - i,
        {
            if str_eq(self.entries[i].sessid.as_str(), sessid) {
                return Some(i);
            }
            i += 1;
        }
        proof {
            assert forall|j: int| 0 <= j < self@.len() implies key_at(self@, j) != sessid@ by {
                assert(self.entries@[j].sessid@ != sessid@);
            }
        }
        None
    }

    /// Whether `sessid` names a live session presented from
    /// `client_address`: the id must exist, and — when address binding
    /// is on — the bound address must match exactly.  A mismatch does
    /// not delete the session.
    pub fn validate(&self, sessid: &str, client_address: &str) -> (r: bool)
        requires
            self.wf(),
        ensures
            r == (has_key(self@, sessid@) && (self.spec_binds_address() ==> value_of(
                self@,
                sessid@,
            ).ip == client_address@)),
    {
        match self.find(sessid) {
            Some(i) => {
                proof {
                    lemma_key_at_lookup(self@, i as int);
                }
                if self.bind_address {
                    str_eq(self.entries[i].session.ip.as_str(), client_address)
                } else {
                    true
                }
            },
            None => false,
        }
    }

    /// Remove the session named `sessid`; removing an absent id is not
    /// an error.
    pub fn invalidate(&mut self, sessid: &str)
        requires
            old(self).wf(),
        ensures
            final(self).wf(),
            final(self)@ == remove_pair(old(self)@, sessid@),
            final(self).spec_binds_address() == old(self).spec_binds_address(),
    {
        match self.find(sessid) {
            Some(i) => {
                proof {
                    lemma_key_at_lookup(self@, i as int);
                    lemma_remove_pair(self@, sessid@);
                }
                let ghost pre = self@;
                self.entries.remove(i);
                proof {
                    assert(self@ =~= pre.remove(crate::keyed::key_index(pre, sessid@)));
                }
            },
            None => {},
        }
    }

    /// Insert (or overwrite) the session `sessid`, owned by `username`
    /// and bound to `ip`, stamped with the moment of creation.
    pub fn create(&mut self, sessid: String, username: String, ip: String)
        requires
            old(self).wf(),
        ensures
            final(self).wf(),
            exists|t: int|
                final(self)@ == insert_pair(
                    old(self)@,
                    sessid@,
                    SessionView { username: username@, ip: ip@, date: t },
                ),
            final(self).spec_binds_address() == old(self).spec_binds_address(),
    {
        let now = now_millis();
        self.create_at(sessid, username, ip, now);
    }

    /// `create`, with the creation moment passed in.  Also the path by
    /// which sessions read back from storage are registered.
    pub fn create_at(
        &mut self,
        sessid: String,
        username: String,
        ip: String,
        date: crate::Timestamp,
    )
        requires
            old(self).wf(),
        ensures
            final(self).wf(),
            final(self)@ == insert_pair(
                old(self)@,
                sessid@,
                SessionView { username: username@, ip: ip@, date: date as int },
            ),
            final(self).spec_binds_address() == old(self).spec_binds_address(),
    {
        let ghost pre = self@;
        let ghost v = SessionView { username: username@, ip: ip@, date: date as int };
        proof {
            lemma_insert_pair(pre, sessid@, v);
        }
        let session = Session { username, ip, date };
        match self.find(sessid.as_str()) {
            Some(i) => {
                proof {
                    lemma_key_at_lookup(pre, i as int);
                }
                self.entries.set(i, SessionEntry { sessid, session });
                proof {
                    assert(self@ =~= insert_pair(pre, sessid@, v));
                }
            },
            None => {
                self.entries.push(SessionEntry { sessid, session });
                proof {
                    assert(self@ =~= insert_pair(pre, sessid@, v));
                }
            },
        }
    }

    /// The user a session belongs to.
    pub fn get_user(&self, sessid: &String) -> (r: Option<String>)
        requires
            self.wf(),
        ensures
            match r {
                Some(name) => has_key(self@, sessid@) && name@ == value_of(self@, sessid@).username,
                None => !has_key(self@, sessid@),
            },
    {
        match self.find(sessid.as_str()) {
            Some(i) => {
                proof {
                    lemma_key_at_lookup(self@, i as int);
                }
                Some(self.entries[i].session.username.clone())
            },
            None => None,
        }
    }

    /// How many sessions the table holds.
    pub fn session_count(&self) -> (r: usize)
        ensures
            r == self@.len(),
    {
        self.entries.len()
    }

    /// The session at position `i`, in insertion order.
    pub fn session_at(&self, i: usize) -> (r: (&String, &Session))
        requires
            i < self@.len(),
        ensures
            r.0@ == key_at(self@, i as int),
            r.1@ == self@[i as int].1,
    {
        (&self.entries[i].sessid, &self.entries[i].session)
    }
}

/// The identity side of the application: the user collection and the
/// session table.
pub struct IdentityManager {
    pub users: Users,
    pub sessions: Sessions,
}

impl IdentityManager {
    /// Both collections well-formed.
    pub open spec fn wf(self) -> bool {
        self.users.wf() && self.sessions.wf()
    }

    /// An empty identity store.  `bind_address` fixes whether sessions
    /// are bound to the client address they were created from.
    pub fn new(bind_address: bool) -> (r: IdentityManager)
        ensures
            r.wf(),
            r.users@ == Seq::<UserView>::empty(),
            r.sessions@ == Seq::<(Seq<char>, SessionView)>::empty(),
            r.sessions.spec_binds_address() == bind_address,
    {
        IdentityManager { users: Users::new(), sessions: Sessions::new(bind_address) }
    }

    /// The login flow: check the password of `username` and, on
    /// success, record the session `session_id` from `client_address`.
    /// An unknown user and a wrong password fail with one and the same
    /// error — the caller learns nothing about which it was.
    pub fn login(
        &mut self,
        username: &str,
        password: &str,
        session_id: &str,
        client_address: &str,
    ) -> (r: Result<(), IdentityError>)
        requires
            old(self).wf(),
        ensures
            final(self).wf(),
            final(self).users == old(self).users,
            final(self).sessions.spec_binds_address() == old(self).sessions.spec_binds_address(),
            match r {
                Ok(()) => {
                    &&& has_user(old(self).users@, username@)
                    &&& argon2_verifies(
                        password@,
                        user_named(old(self).users@, username@).password_hash,
                    )
                    &&& exists|t: int|
                        final(self).sessions@ == insert_pair(
                            old(self).sessions@,
                            session_id@,
                            SessionView { username: username@, ip: client_address@, date: t },
                        )
                },
                Err(e) => {
                    &&& e.spec_kind() == IdentityErrorKind::AuthFailed
                    &&& *final(self) == *old(self)
                    &&& !(has_user(old(self).users@, username@) && argon2_verifies(
                        password@,
                        user_named(old(self).users@, username@).password_hash,
                    ))
                },
            },
    {
        let authenticated = match self.users.get(username) {
            Ok(user) => user.authenticate(password).is_ok(),
            Err(_) => false,
        };
        if authenticated {
            self.sessions.create(
                session_id.to_owned(),
                username.to_owned(),
                client_address.to_owned(),
            );
            Ok(())
        } else {
            Err(IdentityError { kind: IdentityErrorKind::AuthFailed })
        }
    }
}

} // verus!
