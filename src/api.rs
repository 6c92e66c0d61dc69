//! The wire envelopes of the server's answers.

use vstd::prelude::*;

verus! {

/// The body of an envelope: success, or an error message.
pub enum ResponseBody {
    /// `{"status":"OK","message":"Success"}`, with the data the caller
    /// attaches.
    Success,
    /// `{"status":<status>,"error":<message>}`.
    Error(String),
}

/// An answer: its HTTP status code, its status word and its body.
pub struct ApiResponse {
    pub code: u16,
    pub status: String,
    pub body: ResponseBody,
}

/// An error answer with the given code, status word and message.
pub open spec fn is_error(r: ApiResponse, code: u16, status: Seq<char>, message: Seq<char>) -> bool {
    r.code == code && r.status@ == status && (r.body matches ResponseBody::Error(m) && m@ == message)
}

fn error_response(code: u16, status: &str, error: String) -> (r: ApiResponse)
    ensures
        is_error(r, code, status@, error@),
{
    ApiResponse { code, status: String::from_str(status), body: ResponseBody::Error(error) }
}

/// `200 OK`, status `OK`, message `Success`.
pub fn okay_response() -> (r: ApiResponse)
    ensures
        r.code == 200,
        r.status@ == "OK"@,
        r.body is Success,
{
    ApiResponse { code: 200, status: String::from_str("OK"), body: ResponseBody::Success }
}

/// `500`, status `INTERNAL_SERVER_ERROR`.
pub fn internal_server_error(error: String) -> (r: ApiResponse)
    ensures
        is_error(r, 500, "INTERNAL_SERVER_ERROR"@, error@),
{
    error_response(500, "INTERNAL_SERVER_ERROR", error)
}

/// `404`, status `NOT_FOUND`.
pub fn not_found_error(error: String) -> (r: ApiResponse)
    ensures
        is_error(r, 404, "NOT_FOUND"@, error@),
{
    error_response(404, "NOT_FOUND", error)
}

/// `400`, status `BAD_REQUEST`.
pub fn bad_request_error(error: String) -> (r: ApiResponse)
    ensures
        is_error(r, 400, "BAD_REQUEST"@, error@),
{
    error_response(400, "BAD_REQUEST", error)
}

/// `409`, status `CONFLICT`.
pub fn conflict_error(error: String) -> (r: ApiResponse)
    ensures
        is_error(r, 409, "CONFLICT"@, error@),
{
    error_response(409, "CONFLICT", error)
}

/// `401`, status `UNAUTHORIZED`.
pub fn authorization_error(error: String) -> (r: ApiResponse)
    ensures
        is_error(r, 401, "UNAUTHORIZED"@, error@),
{
    error_response(401, "UNAUTHORIZED", error)
}

} // verus!
