//! The token store's logic: expiry in milliseconds, rotation of the access
//! token, and the message shown when no server is configured.

use vstd::prelude::*;
use crate::models::LoginTokenData;

verus! {

/// The access token and its expiry scaled to milliseconds; `None` where
/// the scaled expiry does not fit in a `usize`.
pub fn access_token_millis(data: &LoginTokenData) -> (r: Option<(String, usize)>)
    ensures
        data.expires_at * 1000 <= usize::MAX ==> (r matches Some(x) && x.0@ == data.access_token@ && x.1
            == data.expires_at * 1000),
        data.expires_at * 1000 > usize::MAX ==> r is None,
{
    match data.expires_at.checked_mul(1000) {
        Some(ms) => Some((data.access_token.clone(), ms)),
        None => None,
    }
}

/// Replaces the access token and its expiry; the refresh token and the
/// token type stay.
pub fn rotate_access(data: &mut LoginTokenData, access_token: String, expires_at: usize)
    ensures
        final(data).access_token@ == access_token@,
        final(data).expires_at == expires_at,
        final(data).refresh_token@ == old(data).refresh_token@,
        final(data).token_type@ == old(data).token_type@,
{
    data.set_access_token(access_token);
    data.set_expires_at(expires_at);
}

/// The message shown when the server URL has not been set.
pub fn config_file_error() -> (r: String)
    ensures
        r@ == "Please set a URL before continuing"@,
{
    String::from_str("Please set a URL before continuing")
}

} // verus!
