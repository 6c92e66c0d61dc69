//! Errors of the index and of authentication requests.

use vstd::prelude::*;
use crate::text::concat;

verus! {

/// A failure of an index operation.
#[derive(Debug)]
pub enum DbError {
    /// The storage engine failed; its message.
    SqliteError(String),
    /// A stored timestamp could not be read; the reason.
    ChronoError(String),
    /// The row that an insert names is already present.
    AlreadyExists,
    Custom(String),
}

impl DbError {
    /// The message shown for the error.
    pub fn message(&self) -> (r: String)
        ensures
            self matches DbError::AlreadyExists ==> r@ == "row already exists"@,
            self matches DbError::Custom(e) ==> r@ == "custom error "@ + e@,
            self matches DbError::SqliteError(e) ==> r@ == "sqlite error: "@ + e@,
            self matches DbError::ChronoError(e) ==> r@ == "chrono parse error "@ + e@,
    {
        match self {
            DbError::SqliteError(e) => concat("sqlite error: ", e.as_str()),
            DbError::ChronoError(e) => concat("chrono parse error ", e.as_str()),
            DbError::AlreadyExists => String::from_str("row already exists"),
            DbError::Custom(e) => concat("custom error ", e.as_str()),
        }
    }
}

/// Why the credentials of an authentication request could not be taken.
#[derive(Debug)]
pub enum AuthError {
    UsernameNotFound,
    PasswordNotFound,
    IncorrectPassword,
    Other(String),
}

impl AuthError {
    /// The message shown for the error.
    pub fn message(&self) -> (r: String)
        ensures
            self matches AuthError::UsernameNotFound ==> r@ == "Username not found"@,
            self matches AuthError::PasswordNotFound ==> r@ == "Password not found"@,
            self matches AuthError::IncorrectPassword ==> r@ == "Incorrect password"@,
            self matches AuthError::Other(e) ==> r@ == "Other error "@ + e@,
    {
        match self {
            AuthError::UsernameNotFound => String::from_str("Username not found"),
            AuthError::PasswordNotFound => String::from_str("Password not found"),
            AuthError::IncorrectPassword => String::from_str("Incorrect password"),
            AuthError::Other(e) => concat("Other error ", e.as_str()),
        }
    }
}

} // verus!
