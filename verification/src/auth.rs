//! Who a request speaks for, and what registering and logging in answer.

use crate::auth::password::{hash_is_checkable, params_in_range, password_matches, verify};
use crate::auth::server::{get_username, member_named, session_token, token_claims};
use crate::text::{chars_of, has_prefix_at, string_of_range, strip_prefix};
use vstd::prelude::*;
use vstd::string::StringExecFns;

pub mod password;
pub mod server;

verus! {

/// Why a request is turned away.
#[derive(Clone, Copy, Debug, PartialEq, Eq, Structural)]
pub enum AuthError {
    /// The request speaks for no member.
    NotLoggedIn,
}

impl AuthError {
    /// What the reader is told.
    pub fn message(&self) -> (text: String)
        ensures
            text@ == "Not logged in"@,
    {
        "Not logged in".to_owned()
    }
}

/// What the database says when a new row repeats a unique column of the
/// member table, up to the name of the column.
pub open spec fn unique_violation() -> Seq<char> {
    "UNIQUE constraint failed: user."@
}

/// What a person is told whose registration failed. `database_message` is
/// what the database said, where the failure came from the database: if it
/// complains of a value that must be unique, the person learns which one is
/// already taken.
pub open spec fn registration_failure(database_message: Option<Seq<char>>) -> Seq<char> {
    match database_message {
        Some(message) => match strip_prefix(message, unique_violation()) {
            Some(field) => "Already taken: "@ + field,
            None => "Could not register"@,
        },
        None => "Could not register"@,
    }
}

/// Words the failure of a registration.
pub fn registration_error(database_message: Option<&str>) -> (text: String)
    ensures
        text@ == registration_failure(
            match database_message {
                Some(m) => Some(m@),
                None => None,
            },
        ),
{
    match database_message {
        Some(message) => {
            let chars = chars_of(message);
            let prefix = chars_of("UNIQUE constraint failed: user.");
            assert(chars@.skip(0) == chars@);
            if has_prefix_at(&chars, 0, &prefix) {
                let field = string_of_range(&chars, prefix.len(), chars.len());
                assert(chars@.subrange(prefix@.len() as int, chars@.len() as int) == chars@.skip(
                    prefix@.len() as int,
                ));
                let mut text = "Already taken: ".to_owned();
                text.append(field.as_str());
                text
            } else {
                "Could not register".to_owned()
            }
        },
        None => "Could not register".to_owned(),
    }
}

/// Decides a login: it succeeds when the member exists, so that a hash is
/// stored, the hash is one that Argon2 can be asked about, and it accepts
/// the password.
pub fn login(stored_hash: Option<&str>, password: &str) -> (accepted: bool)
    ensures
        accepted == (stored_hash matches Some(h) && params_in_range(h@) && password_matches(
            password@,
            h@,
        )),
{
    match stored_hash {
        Some(hash) => hash_is_checkable(hash) && verify(password, hash),
        None => false,
    }
}

/// The member that a request speaks for, given its `Cookie` header: none
/// without a header or without a session cookie in it, and else nobody but
/// the member that the token of the session cookie claims.
pub fn authenticated_username(cookie_header: Option<&str>, secret: &str) -> (name: Option<String>)
    ensures
        cookie_header is None ==> name is None,
        cookie_header matches Some(h) && session_token(h@) is None ==> name is None,
        name matches Some(n) ==> cookie_header matches Some(h) && session_token(h@) matches Some(
            token,
        ) && member_named(token_claims(token, secret@)) == Some(n@),
{
    get_username(cookie_header, secret)
}

/// The member that a request speaks for, where one is required.
pub fn require_login(username: Option<String>) -> (r: Result<String, AuthError>)
    ensures
        match username {
            Some(name) => r == Ok::<String, AuthError>(name),
            None => r == Err::<String, AuthError>(AuthError::NotLoggedIn),
        },
{
    match username {
        Some(name) => Ok(name),
        None => Err(AuthError::NotLoggedIn),
    }
}

} // verus!
