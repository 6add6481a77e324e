//! Passwords and authentication.

use crate::store::Store;
use crate::trusted::{bcrypt_accepts, bcrypt_hash, bcrypt_verify, printable_ascii};
use crate::user::model::{User, UserData, UserError};
use vstd::prelude::*;

verus! {

/// Why authentication failed.
#[derive(Debug)]
pub enum AuthenticationError {
    IncorrectPassword,
    UserNotFound,
    BcryptError(pwhash::error::Error),
    DatabaseError(UserError),
}

/// The token that a successful authentication hands out.
pub open spec fn auth_token() -> Seq<char> {
    "AUTH_TOKEN_NOT_IMPLEMENTED"@
}

/// Whether every character of `s` is printable ASCII.
pub fn is_printable_ascii(s: &str) -> (r: bool)
    ensures
        r == printable_ascii(s@),
{
    let n = s.unicode_len();
    let mut i: usize = 0;
    while i < n
        invariant
            i <= n,
            n == s@.len(),
            forall|j: int| 0 <= j < i ==> ' ' <= s@[j] && s@[j] <= '~',
        decreases n - i,
    {
        let c = s.get_char(i);
        if ' ' > c || c > '~' {
            return false;
        }
        i += 1;
    }
    true
}

impl User {
    /// The salted hash of a password: a string that [`User::check_password`]
    /// finds to correspond to it. It fails with `BcryptError` where the hash
    /// cannot be computed.
    pub fn generate_password(clear_password: &str) -> (r: Result<String, AuthenticationError>)
        ensures
            r matches Ok(hash) ==> bcrypt_accepts(clear_password@, hash@) && printable_ascii(
                hash@,
            ),
            r matches Err(e) ==> e is BcryptError,
    {
        match bcrypt_hash(clear_password) {
            Ok(hash) => Ok(hash),
            Err(e) => Err(AuthenticationError::BcryptError(e)),
        }
    }

    /// Whether the stored hash corresponds to a password. A stored string that
    /// holds anything but printable ASCII is no hash and corresponds to none.
    pub fn check_password(&self, clear_password: &str) -> (r: bool)
        ensures
            r == (printable_ascii(self.password@) && bcrypt_accepts(
                clear_password@,
                self.password@,
            )),
    {
        if !is_printable_ascii(self.password.as_str()) {
            return false;
        }
        bcrypt_verify(clear_password, self.password.as_str())
    }

    /// The outcome of authenticating as this user, once the password has been
    /// checked: the token if the password matched and the user bears the name
    /// that was submitted, `IncorrectPassword` otherwise.
    pub fn token_for(&self, user_data: &UserData, password_matches: bool) -> (r: Result<
        String,
        AuthenticationError,
    >)
        ensures
            password_matches && user_data.username@ == self.username@ ==> r is Ok && r->Ok_0@
                == auth_token(),
            !(password_matches && user_data.username@ == self.username@) ==> r is Err
                && r->Err_0 is IncorrectPassword,
    {
        if password_matches && user_data.username == self.username {
            Ok("AUTH_TOKEN_NOT_IMPLEMENTED".to_owned())
        } else {
            Err(AuthenticationError::IncorrectPassword)
        }
    }

    /// Authenticates by name and password.
    ///
    /// Fails with `UserNotFound` if no user bears the name, with
    /// `IncorrectPassword` if the stored hash does not correspond to the
    /// password; otherwise hands out the token.
    pub fn authenticate(conn: &Store, user_data: UserData) -> (r: Result<
        String,
        AuthenticationError,
    >)
        requires
            conn.wf(),
        ensures
            match conn@.user_named(user_data.username@) {
                None => r is Err && r->Err_0 is UserNotFound,
                Some(u) => if printable_ascii(u.password) && bcrypt_accepts(
                    user_data.password@,
                    u.password,
                ) {
                    r is Ok && r->Ok_0@ == auth_token()
                } else {
                    r is Err && r->Err_0 is IncorrectPassword
                },
            },
    {
        let user = match User::_find_by_username(conn, user_data.username.as_str()) {
            Err(e) => {
                return Err(AuthenticationError::DatabaseError(e));
            },
            Ok(u) => u,
        };
        let user = match user {
            None => {
                return Err(AuthenticationError::UserNotFound);
            },
            Some(u) => u,
        };
        let password_matches = user.check_password(user_data.password.as_str());
        user.token_for(&user_data, password_matches)
    }
}

} // verus!
