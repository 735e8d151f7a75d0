//! Responses made from what a handler returns.

use vstd::prelude::*;
use crate::decimal::{
    format_i32, formatted, is_canonical, lemma_format_after_parse, lemma_parse_after_format,
};
use crate::error::ParseError;
use crate::extract::FromRequest;
use crate::http::{HttpRequestView, HttpResponse};

verus! {

/// The body that stands for "no value".
pub open spec fn unit_body() -> Seq<char> {
    seq!['(', ')']
}

/// A type that a handler can return: a value of it is turned into a response.
pub trait Responder {
    /// Whether a response with this body may stand for the value. A type that
    /// does not say leaves every body open.
    open spec fn responds_with(&self, body: Seq<char>) -> bool {
        true
    }

    /// The response that stands for this value.
    fn response_to(&self) -> (resp: HttpResponse)
        ensures
            self.responds_with(resp@),
    ;
}

/// No value becomes the body `()`.
impl Responder for () {
    open spec fn responds_with(&self, body: Seq<char>) -> bool {
        body == unit_body()
    }

    fn response_to(&self) -> (resp: HttpResponse) {
        proof {
            reveal_strlit("()");
        }
        let body = "()".to_owned();
        assert(body@ =~= unit_body());
        HttpResponse { body }
    }
}

/// A text becomes the body as it is.
impl Responder for String {
    open spec fn responds_with(&self, body: Seq<char>) -> bool {
        body == self@
    }

    fn response_to(&self) -> (resp: HttpResponse) {
        HttpResponse { body: self.clone() }
    }
}

/// An integer becomes its canonical base-10 literal.
impl Responder for i32 {
    open spec fn responds_with(&self, body: Seq<char>) -> bool {
        body == formatted(*self as int)
    }

    fn response_to(&self) -> (resp: HttpResponse) {
        HttpResponse { body: format_i32(*self) }
    }
}

/// A response stands for itself.
impl Responder for HttpResponse {
    open spec fn responds_with(&self, body: Seq<char>) -> bool {
        body == self@
    }

    fn response_to(&self) -> (resp: HttpResponse) {
        self.clone()
    }
}

/// Extraction undoes conversion: from a request whose body is the response
/// to the integer `n`, the integer that is extracted is `n`.
pub proof fn lemma_integer_extracted_from_its_response(
    n: i32,
    req: HttpRequestView,
    outcome: Result<i32, ParseError>,
)
    requires
        n.responds_with(req.body),
        <i32 as FromRequest>::extracts(req, outcome),
    ensures
        outcome == Ok::<i32, ParseError>(n),
{
    lemma_parse_after_format(n);
}

/// Conversion undoes extraction: the response to an integer extracted from a
/// canonical body is that body.
pub proof fn lemma_integer_responds_with_its_body(n: i32, req: HttpRequestView)
    requires
        is_canonical(req.body),
        <i32 as FromRequest>::extracts(req, Ok(n)),
    ensures
        n.responds_with(req.body),
{
    lemma_format_after_parse(req.body);
}

} // verus!
