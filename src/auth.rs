//! Credentials of authentication requests and the lifetimes of tokens.

use vstd::prelude::*;
use crate::api::{ApiResponse, authorization_error, conflict_error, internal_server_error, is_error, not_found_error};
use crate::errors::{AuthError, DbError};
use crate::models::{AuthRequest, UserAccessToken, UserRefreshToken, UserRow};
use crate::text::{concat, starts_with};

verus! {

/// How long an access token lives, in seconds.
pub const ACCESS_TOKEN_EXPIRY_SECONDS: usize = 900;

/// How long a refresh token lives, in seconds.
pub const REFRESH_TOKEN_EXPIRY_SECONDS: usize = 604800;

/// The user name and password of a request; the user name is looked at
/// first.
pub fn extract_user_info(request: &AuthRequest) -> (r: Result<(String, String), AuthError>)
    ensures
        request.username is None ==> r matches Err(AuthError::UsernameNotFound),
        request.username is Some && request.password is None ==> r matches Err(AuthError::PasswordNotFound),
        request.username matches Some(u) ==> (request.password matches Some(p) ==> (r matches Ok(x) && x.0@ == u@
            && x.1@ == p@)),
{
    let username = match &request.username {
        Some(u) => u.clone(),
        None => return Err(AuthError::UsernameNotFound),
    };
    let password = match &request.password {
        Some(p) => p.clone(),
        None => return Err(AuthError::PasswordNotFound),
    };
    Ok((username, password))
}

/// The claims of an access token issued at `now` (seconds): it expires
/// `ACCESS_TOKEN_EXPIRY_SECONDS` later; `None` where that instant does not
/// fit.
pub fn access_claims(username: String, now: usize) -> (r: Option<UserAccessToken>)
    ensures
        now + ACCESS_TOKEN_EXPIRY_SECONDS <= usize::MAX ==> (r matches Some(c) && c.sub@ == username@ && c.exp
            == now + ACCESS_TOKEN_EXPIRY_SECONDS),
        now + ACCESS_TOKEN_EXPIRY_SECONDS > usize::MAX ==> r is None,
{
    match now.checked_add(ACCESS_TOKEN_EXPIRY_SECONDS) {
        Some(exp) => Some(UserAccessToken::new(username, exp)),
        None => None,
    }
}

/// The claims of a refresh token issued at `now` (seconds): it expires
/// `REFRESH_TOKEN_EXPIRY_SECONDS` later; `None` where that instant does not
/// fit.
pub fn refresh_claims(username: String, now: usize) -> (r: Option<UserRefreshToken>)
    ensures
        now + REFRESH_TOKEN_EXPIRY_SECONDS <= usize::MAX ==> (r matches Some(c) && c.sub@ == username@ && c.exp
            == now + REFRESH_TOKEN_EXPIRY_SECONDS),
        now + REFRESH_TOKEN_EXPIRY_SECONDS > usize::MAX ==> r is None,
{
    match now.checked_add(REFRESH_TOKEN_EXPIRY_SECONDS) {
        Some(exp) => Some(UserRefreshToken::new(username, exp)),
        None => None,
    }
}

/// The PHC string is one that password-hash can parse.
pub uninterp spec fn phc_parses(phc: Seq<char>) -> bool;

/// Argon2 accepts the password against the parsed PHC string.
pub uninterp spec fn argon2_accepts(password: Seq<char>, phc: Seq<char>) -> bool;

/// Relies on password-hash's `PasswordHash::new` (which refuses an empty
/// string) and on `Argon2::verify_password`, which hashes the password
/// with the salt and parameters of the PHC string and compares.
#[verifier::external_body]
fn verify_password(password: &str, phc: &str) -> (r: Result<bool, String>)
    ensures
        r is Ok <==> phc_parses(phc@),
        r matches Ok(b) ==> b == argon2_accepts(password@, phc@),
        phc@.len() == 0 ==> r is Err,
{
    match argon2::PasswordHash::new(phc) {
        Ok(h) => Ok(
            argon2::PasswordVerifier::verify_password(&argon2::Argon2::default(), password.as_bytes(), &h).is_ok(),
        ),
        Err(e) => Err(e.to_string()),
    }
}

/// Relies on `Argon2::hash_password` with a salt drawn from the operating
/// system's generator: the PHC string of the hash, or the reason it failed.
/// The salt is random, so nothing is known of the result in advance.
#[verifier::external_body]
fn hash_with_random_salt(password: &str) -> (r: Result<String, String>) {
    let salt = argon2::password_hash::SaltString::generate(&mut argon2::password_hash::rand_core::OsRng);
    match argon2::PasswordHasher::hash_password(&argon2::Argon2::default(), password.as_bytes(), &salt) {
        Ok(h) => Ok(h.to_string()),
        Err(e) => Err(e.to_string()),
    }
}

/// Whether `password` matches the PHC string `password_hash`; `false`
/// where the string cannot be parsed.
pub fn check_password(password: &String, password_hash: &String) -> (r: bool)
    ensures
        r == (phc_parses(password_hash@) && argon2_accepts(password@, password_hash@)),
{
    match verify_password(password.as_str(), password_hash.as_str()) {
        Ok(b) => b,
        Err(_) => false,
    }
}

/// The PHC string stored for a new user; a failure of the hasher becomes
/// an index error.
pub fn password_hash_for(password: &String) -> (r: Result<String, DbError>)
    ensures
        r matches Err(e) ==> (e matches DbError::Custom(m) && starts_with(m@, "Error with password generation: "@)),
{
    match hash_with_random_salt(password.as_str()) {
        Ok(h) => Ok(h),
        Err(e) => {
            let m = concat("Error with password generation: ", e.as_str());
            assert(m@.subrange(0, "Error with password generation: "@.len() as int) =~= "Error with password generation: "@);
            Err(DbError::Custom(m))
        },
    }
}

/// A registration is refused where the user name is taken.
pub fn register_check(users: &Vec<UserRow>) -> (r: Result<(), ApiResponse>)
    ensures
        users@.len() == 0 ==> r is Ok,
        users@.len() > 0 ==> (r matches Err(e) && is_error(e, 409, "CONFLICT"@, "User already exists"@)),
{
    if users.len() > 0 {
        Err(conflict_error(String::from_str("User already exists")))
    } else {
        Ok(())
    }
}

/// A request on behalf of a user name that no user has is not found.
pub fn require_user(users: &Vec<UserRow>) -> (r: Result<(), ApiResponse>)
    ensures
        users@.len() > 0 ==> r is Ok,
        users@.len() == 0 ==> (r matches Err(e) && is_error(e, 404, "NOT_FOUND"@, "User not found"@)),
{
    if users.len() == 0 {
        Err(not_found_error(String::from_str("User not found")))
    } else {
        Ok(())
    }
}

/// A login is accepted where the first user found has a parsable password
/// hash that accepts the password; a wrong password is unauthorized.
pub fn login_check(users: &Vec<UserRow>, password: &String) -> (r: Result<(), ApiResponse>)
    ensures
        users@.len() == 0 ==> (r matches Err(e) && is_error(e, 404, "NOT_FOUND"@, "User not found"@)),
        users@.len() > 0 ==> ({
            let phc = users@[0]@.1;
            &&& !phc_parses(phc) ==> (r matches Err(e) && e.code == 500)
            &&& phc_parses(phc) && !argon2_accepts(password@, phc) ==> (r matches Err(e) && is_error(
                e,
                401,
                "UNAUTHORIZED"@,
                "Invalid password"@,
            ))
            &&& phc_parses(phc) && argon2_accepts(password@, phc) ==> r is Ok
        }),
{
    if users.len() == 0 {
        return Err(not_found_error(String::from_str("User not found")));
    }
    let user = &users[0];
    match verify_password(password.as_str(), user.password()) {
        Err(e) => Err(internal_server_error(e)),
        Ok(false) => Err(authorization_error(String::from_str("Invalid password"))),
        Ok(true) => Ok(()),
    }
}

} // verus!
