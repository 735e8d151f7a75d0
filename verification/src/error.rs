//! Why a handler gave no response.

use vstd::prelude::*;

verus! {

/// The failure of an extraction: the body is not text that the declared
/// parameter type can be read from.
#[derive(Clone, Copy, Debug, PartialEq, Eq, Structural)]
pub enum ParseError {
    /// The body is empty.
    Empty,
    /// The body is not a literal of the target type.
    Invalid,
    /// The body is a well-formed literal whose value the target type cannot hold.
    OutOfRange,
}

/// Why a handler that was invoked gave no response.
#[derive(Clone, Copy, Debug, PartialEq, Eq, Structural)]
pub enum HandlerError {
    /// An argument could not be extracted from the request; the handler's
    /// function was not called.
    Extraction(ParseError),
    /// The function returned an asynchronous computation, and the calling
    /// thread was already running an executor, which cannot wait for another
    /// computation; the computation was not run.
    ExecutorBusy,
}

} // verus!
