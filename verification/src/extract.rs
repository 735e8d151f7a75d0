//! Typed arguments read from a request.

use vstd::prelude::*;
use crate::decimal::{parse_i32, parsed_i32};
use crate::error::ParseError;
use crate::http::{HttpRequest, HttpRequestView};

verus! {

/// A type that a handler can declare as a parameter: a value of it is read
/// from the request. Every parameter of a handler is read from the same
/// request, so each one sees the whole body.
pub trait FromRequest: Sized {
    /// Whether `outcome` is what reading from `req` may give. A type that
    /// does not say leaves every outcome open.
    open spec fn extracts(req: HttpRequestView, outcome: Result<Self, ParseError>) -> bool {
        true
    }

    /// Reads a value from the request, or says why there is none.
    fn from_request(req: &HttpRequest) -> (outcome: Result<Self, ParseError>)
        ensures
            Self::extracts(req@, outcome),
    ;
}

/// An integer parameter is the body read as a base-10 signed integer.
impl FromRequest for i32 {
    open spec fn extracts(req: HttpRequestView, outcome: Result<Self, ParseError>) -> bool {
        outcome == parsed_i32(req.body)
    }

    fn from_request(req: &HttpRequest) -> (outcome: Result<Self, ParseError>) {
        parse_i32(req.body())
    }
}

/// A text parameter is the body itself, whatever it holds.
impl FromRequest for String {
    open spec fn extracts(req: HttpRequestView, outcome: Result<Self, ParseError>) -> bool {
        outcome matches Ok(text) && text@ == req.body
    }

    fn from_request(req: &HttpRequest) -> (outcome: Result<Self, ParseError>) {
        Ok(req.body().to_owned())
    }
}

} // verus!
