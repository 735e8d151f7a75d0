//! The request and response data model.

use vstd::prelude::*;

verus! {

/// The request methods that a route can be bound to.
#[derive(Clone, Copy, Debug, PartialEq, Eq, Structural)]
pub enum Method {
    Get,
    Post,
    Put,
    Delete,
}

/// What a route is looked up by: a method and a path, compared exactly.
pub struct RouteKey {
    pub method: Method,
    pub path: Seq<char>,
}

/// The mathematical value of an [`HttpRequest`].
pub struct HttpRequestView {
    pub method: Method,
    pub path: Seq<char>,
    pub body: Seq<char>,
}

impl HttpRequestView {
    /// The key under which a route for this request is looked up.
    pub open spec fn key(self) -> RouteKey {
        RouteKey { method: self.method, path: self.path }
    }
}

/// An inbound call: a method, a path and a raw body, none of them interpreted.
pub struct HttpRequest {
    method: Method,
    path: &'static str,
    body: &'static str,
}

impl View for HttpRequest {
    type V = HttpRequestView;

    closed spec fn view(&self) -> HttpRequestView {
        HttpRequestView { method: self.method, path: self.path@, body: self.body@ }
    }
}

impl HttpRequest {
    /// A request with the given method, path and body.
    pub fn new(method: Method, path: &'static str, body: &'static str) -> (req: Self)
        ensures
            req@ == (HttpRequestView { method, path: path@, body: body@ }),
    {
        HttpRequest { method, path, body }
    }

    /// The request's method.
    pub fn method(&self) -> (m: Method)
        ensures
            m == self@.method,
    {
        self.method
    }

    /// The request's path, as it was given.
    pub fn path(&self) -> (p: &'static str)
        ensures
            p@ == self@.path,
    {
        self.path
    }

    /// The request's body, as it was given.
    pub fn body(&self) -> (b: &'static str)
        ensures
            b@ == self@.body,
    {
        self.body
    }
}

/// An outbound result: the raw body text.
#[derive(Debug, PartialEq, Eq)]
pub struct HttpResponse {
    pub body: String,
}

impl View for HttpResponse {
    type V = Seq<char>;

    open spec fn view(&self) -> Seq<char> {
        self.body@
    }
}

impl Clone for HttpResponse {
    fn clone(&self) -> (copy: Self)
        ensures
            copy@ == self@,
    {
        HttpResponse { body: self.body.clone() }
    }
}

/// Short name for [`HttpRequest`].
pub type Request = HttpRequest;

/// Short name for [`HttpResponse`].
pub type Response = HttpResponse;

} // verus!
