//! Error answers of the HTTP service: a status code and a JSON body
//! `{"error": message}`.
use vstd::prelude::*;

verus! {

/// The JSON body of an error answer.
pub struct ErrorResponse {
    /// What went wrong.
    pub error: String,
}

/// An error answer: HTTP status and body.
pub struct ErrorReply {
    /// The HTTP status code.
    pub status: u16,
    /// The body.
    pub body: ErrorResponse,
}

/// HTTP 400 Bad Request.
pub const BAD_REQUEST: u16 = 400;

/// HTTP 409 Conflict.
pub const CONFLICT: u16 = 409;

/// A 400 answer carrying `msg`.
pub fn bad_request(msg: &str) -> (reply: ErrorReply)
    ensures
        reply.status == BAD_REQUEST,
        reply.body.error@ == msg@,
{
    ErrorReply { status: BAD_REQUEST, body: ErrorResponse { error: String::from_str(msg) } }
}

/// A 409 answer carrying `msg`.
pub fn conflict(msg: &str) -> (reply: ErrorReply)
    ensures
        reply.status == CONFLICT,
        reply.body.error@ == msg@,
{
    ErrorReply { status: CONFLICT, body: ErrorResponse { error: String::from_str(msg) } }
}

} // verus!
