//! Errors: the shared error of the list, and the error a request is
//! answered with.

use vstd::prelude::*;
use crate::text::push_str;

verus! {

/// An error of the shopping list, with what went wrong.
#[derive(Debug)]
pub struct TomeError {
    details: String,
}

impl TomeError {
    /// What went wrong.
    pub closed spec fn details(&self) -> Seq<char> {
        self.details@
    }

    /// An error saying `details`.
    pub fn new(details: &str) -> (res: Self)
        ensures
            res.details() == details@,
    {
        TomeError { details: details.to_owned() }
    }

    /// The text of the error: `TomeError: ` and what went wrong.
    pub fn to_string(&self) -> (res: String)
        ensures
            res@ == "TomeError: "@ + self.details(),
    {
        let mut s = "TomeError: ".to_owned();
        push_str(&mut s, self.details.as_str());
        s
    }
}

/// The HTTP status of a request without valid credentials.
pub const UNAUTHORIZED: u16 = 401;

/// The HTTP status of a malformed request.
pub const BAD_REQUEST: u16 = 400;

/// The HTTP status of a failure of the server.
pub const INTERNAL_SERVER_ERROR: u16 = 500;

/// The error a request is answered with: a message and an HTTP status code.
#[derive(Debug)]
pub struct ApiError {
    pub message: String,
    pub status: u16,
}

impl ApiError {
    /// A 401 answer saying `msg`.
    pub fn unauthorized(msg: &str) -> (res: Self)
        ensures
            res.message@ == msg@,
            res.status == UNAUTHORIZED,
    {
        ApiError { message: msg.to_owned(), status: UNAUTHORIZED }
    }

    /// A 400 answer saying `msg`.
    pub fn bad_request(msg: &str) -> (res: Self)
        ensures
            res.message@ == msg@,
            res.status == BAD_REQUEST,
    {
        ApiError { message: msg.to_owned(), status: BAD_REQUEST }
    }

    /// A 500 answer saying `msg`.
    pub fn internal(msg: &str) -> (res: Self)
        ensures
            res.message@ == msg@,
            res.status == INTERNAL_SERVER_ERROR,
    {
        ApiError { message: msg.to_owned(), status: INTERNAL_SERVER_ERROR }
    }
}

impl From<String> for ApiError {
    fn from(msg: String) -> (res: Self) {
        ApiError { message: msg, status: INTERNAL_SERVER_ERROR }
    }
}

impl vstd::std_specs::convert::FromSpecImpl<String> for ApiError {
    open spec fn obeys_from_spec() -> bool {
        true
    }

    open spec fn from_spec(msg: String) -> Self {
        ApiError { message: msg, status: INTERNAL_SERVER_ERROR }
    }
}

} // verus!
