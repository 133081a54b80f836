//! Credential table and login check.
//!
//! The table is a small in-memory list of users seeded at startup; callers may
//! extend it before handing it to the presentation loop.  A login attempt
//! succeeds exactly when the first user carrying the given username also
//! carries the given password.

use vstd::prelude::*;

verus! {

/// Error returned when a login attempt fails; carries the username that was
/// tried.
#[derive(Debug, PartialEq, Eq)]
pub enum AuthError {
    InvalidCredentials(String),
}

/// Role granted to an authenticated user.
#[derive(Debug, PartialEq, Eq, Clone, Copy)]
pub enum UserRole {
    Admin,
    User,
}

/// One entry of the credential table.
#[derive(Debug)]
pub struct User {
    pub username: String,
    pub password: String,
    pub role: UserRole,
}

/// The credential table.  Lookups go to the first entry with a matching
/// username, so a table without duplicate usernames behaves like a map.
pub struct Auth {
    pub users: Vec<User>,
}

/// The entry at `i` is the first one in `users` whose username reads `name`.
pub open spec fn is_first_user_match(users: Seq<User>, name: Seq<char>, i: int) -> bool {
    &&& 0 <= i < users.len()
    &&& users[i].username@ == name
    &&& forall|j: int| 0 <= j < i ==> users[j].username@ != name
}

impl Auth {
    /// Builds the table seeded with the two reference accounts.
    pub fn new() -> (auth: Auth)
        ensures
            auth.users@.len() == 2,
            auth.users@[0].username@ == "manager"@,
            auth.users@[0].password@ == "password123"@,
            auth.users@[0].role == UserRole::Admin,
            auth.users@[1].username@ == "normal_user"@,
            auth.users@[1].password@ == "userpassword"@,
            auth.users@[1].role == UserRole::User,
    {
        let mut users: Vec<User> = Vec::new();
        users.push(
            User {
                username: "manager".to_owned(),
                password: "password123".to_owned(),
                role: UserRole::Admin,
            },
        );
        users.push(
            User {
                username: "normal_user".to_owned(),
                password: "userpassword".to_owned(),
                role: UserRole::User,
            },
        );
        Auth { users }
    }

    /// Checks a username/password pair against the table: the role of the
    /// first user carrying `username` comes back when its password is
    /// `password`, and `InvalidCredentials` comes back otherwise.
    pub fn authenticate(&self, username: &str, password: &str) -> (result: Result<
        UserRole,
        AuthError,
    >)
        ensures
            match result {
                Ok(role) => exists|i: int|
                    is_first_user_match(self.users@, username@, i)
                        && self.users@[i].password@ == password@ && role == self.users@[i].role,
                Err(e) => {
                    &&& e matches AuthError::InvalidCredentials(n) && n@ == username@
                    &&& forall|i: int|
                        is_first_user_match(self.users@, username@, i) ==> self.users@[i].password@
                            != password@
                },
            },
    {
        let target: String = username.to_owned();
        let supplied: String = password.to_owned();
        let mut idx: usize = 0;
        while idx < self.users.len()
            invariant
                idx <= self.users@.len(),
                target@ == username@,
                supplied@ == password@,
                forall|j: int| 0 <= j < idx ==> self.users@[j].username@ != username@,
            decreases self.users@.len() - idx,
        {
            if self.users[idx].username == target {
                proof {
                    assert(is_first_user_match(self.users@, username@, idx as int));
                }
                if self.users[idx].password == supplied {
                    return Ok(self.users[idx].role);
                } else {
                    return Err(AuthError::InvalidCredentials(target));
                }
            }
            idx = idx + 1;
        }
        Err(AuthError::InvalidCredentials(target))
    }
}

} // verus!
