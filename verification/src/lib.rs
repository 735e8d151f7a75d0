//! A request-dispatch engine: functions of any arity from zero to three are
//! registered against a (method, path) route and later invoked uniformly,
//! whatever their parameter and result types.
//!
//! A request runs through extraction (one typed argument per declared
//! parameter, each read from the same request), the handler itself, and the
//! conversion of what it returns into a response. The [`handler`] module
//! does that for one function; the [`dispatcher`] module matches routes and
//! invokes every handler that matches, in the order of registration.

pub mod decimal;
pub mod dispatcher;
pub mod error;
pub mod extract;
pub mod handler;
pub mod http;
pub mod respond;
pub mod text;

pub use dispatcher::{Dispatcher, RouteNotFound};
pub use error::{HandlerError, ParseError};
pub use extract::FromRequest;
pub use handler::{Handler, HandlerFactory, Reply};
pub use http::{HttpRequest, HttpResponse, Method, Request, Response};
pub use respond::Responder;
