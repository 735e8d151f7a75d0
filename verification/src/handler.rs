//! The adaptation layer: a function of zero to three typed parameters becomes
//! a callable of one shape, from a request to a reply.

use std::future::Future;
use std::marker::PhantomData;
use vstd::prelude::*;
use crate::decimal::parsed_i32;
use crate::error::{HandlerError, ParseError};
use crate::extract::FromRequest;
use crate::http::{HttpRequest, HttpRequestView, HttpResponse};
use crate::respond::{unit_body, Responder};

verus! {

/// What one handler gives for one request: its response, or the reason why
/// there is none.
pub type Reply = Result<HttpResponse, HandlerError>;

/// The mathematical value of a [`Reply`]: the response's body, or the failure.
pub type ReplyView = Result<Seq<char>, HandlerError>;

/// The value of `reply`.
pub open spec fn reply_view(reply: Reply) -> ReplyView {
    match reply {
        Ok(resp) => Ok(resp@),
        Err(e) => Err(e),
    }
}

/// The uniform callable: the one shape under which handlers of every arity and
/// type are stored and invoked.
pub trait Handler {
    /// Whether `reply` is what invoking the handler on `req` may give.
    spec fn answers(&self, req: HttpRequestView, reply: ReplyView) -> bool;

    /// Invokes the handler on the request.
    fn call(&self, req: &HttpRequest) -> (reply: Reply)
        ensures
            self.answers(req@, reply_view(reply)),
    ;
}

/// Marks a handler result that is itself turned into the response.
pub struct Immediate;

/// Marks a handler result that is an asynchronous computation of an `O`: the
/// caller waits for its end, and the `O` is turned into the response.
pub struct Awaited<O> {
    output: PhantomData<O>,
}

/// Whether a response with this body may stand for some value of type `O`.
pub open spec fn may_respond<O: Responder>(body: Seq<char>) -> bool {
    exists|output: O| #[trigger] output.responds_with(body)
}

/// What a handler function returns, seen as something that ends in a reply.
/// `M` says in which of the two ways: [`Immediate`] or [`Awaited`].
pub trait HandlerResult<M>: Sized {
    /// Whether `reply` is one that this result may end in.
    spec fn ends_in(self, reply: ReplyView) -> bool;

    /// Brings the result to its end and turns it into the reply.
    fn into_reply(self) -> (reply: Reply)
        ensures
            self.ends_in(reply_view(reply)),
    ;
}

/// A value that has a response of its own always ends in that response.
impl<O: Responder> HandlerResult<Immediate> for O {
    open spec fn ends_in(self, reply: ReplyView) -> bool {
        reply matches Ok(body) && self.responds_with(body)
    }

    fn into_reply(self) -> (reply: Reply) {
        Ok(self.response_to())
    }
}

/// An asynchronous computation ends in the response to an output of its
/// type, or in no response where the calling thread cannot wait for it.
/// Which output comes of a computation, and whether the thread can wait, is
/// decided when the computation is run.
impl<R: Future<Output = O>, O: Responder> HandlerResult<Awaited<O>> for R {
    open spec fn ends_in(self, reply: ReplyView) -> bool {
        match reply {
            Ok(body) => may_respond::<O>(body),
            Err(e) => e == HandlerError::ExecutorBusy,
        }
    }

    fn into_reply(self) -> (reply: Reply) {
        match try_block_on(self) {
            Some(output) => {
                let resp = output.response_to();
                assert(output.responds_with(resp@));
                Ok(resp)
            },
            None => Err(HandlerError::ExecutorBusy),
        }
    }
}

/// Runs an asynchronous computation to its end on the calling thread and
/// hands its output back, or hands back `None` and leaves the computation
/// alone where the thread is already running an executor. It asks
/// `futures::executor::enter` whether the thread is free, gives the thread
/// back at once, and only then calls `futures::executor::block_on`, which
/// would panic on a thread that is not free. The contract claims nothing of
/// what comes back. The call does not return while the computation never
/// ends.
#[verifier::external_body]
fn try_block_on<R: Future>(computation: R) -> (output: Option<R::Output>) {
    match futures::executor::enter() {
        Ok(scope) => {
            drop(scope);
            Some(futures::executor::block_on(computation))
        },
        Err(_) => None,
    }
}

/// A result of no value ends in the unit body and in no other, whether it is
/// there at once or has to be awaited.
pub proof fn lemma_unit_ends_in_unit_body<R: Future<Output = ()>>(awaited: R, body: Seq<char>)
    ensures
        HandlerResult::<Immediate>::ends_in((), Ok(body)) <==> body == unit_body(),
        HandlerResult::<Awaited<()>>::ends_in(awaited, Ok(body)) <==> body == unit_body(),
{
    if body == unit_body() {
        assert(().responds_with(body));
    }
}

/// Whether `reply` is what comes of reading one argument of type `A` from
/// `req` and going on with it: the failure, where reading fails, and else
/// a reply for which `then` holds of the argument that was read.
pub open spec fn extracting<A: FromRequest>(
    req: HttpRequestView,
    reply: ReplyView,
    then: spec_fn(A) -> bool,
) -> bool {
    exists|outcome: Result<A, ParseError>| #[trigger]
        A::extracts(req, outcome) && match outcome {
            Ok(argument) => then(argument),
            Err(e) => reply == Err::<Seq<char>, HandlerError>(HandlerError::Extraction(e)),
        }
}

/// An integer parameter ends the call with a failure exactly where the body
/// is no 32-bit integer literal, and with the failure that reading it gives;
/// everywhere else the call goes on with the integer that the body denotes.
pub proof fn lemma_extracting_integer(
    req: HttpRequestView,
    reply: ReplyView,
    then: spec_fn(i32) -> bool,
)
    ensures
        extracting::<i32>(req, reply, then) <==> match parsed_i32(req.body) {
            Ok(number) => then(number),
            Err(e) => reply == Err::<Seq<char>, HandlerError>(HandlerError::Extraction(e)),
        },
{
    assert(<i32 as FromRequest>::extracts(req, parsed_i32(req.body)));
}

/// A text parameter never ends the call: the call goes on with a text that
/// holds the body, character for character.
pub proof fn lemma_extracting_text(
    req: HttpRequestView,
    reply: ReplyView,
    then: spec_fn(String) -> bool,
)
    ensures
        extracting::<String>(req, reply, then) <==> exists|text: String|
            text@ == req.body && #[trigger] then(text),
{
    if exists|text: String| text@ == req.body && #[trigger] then(text) {
        let text = choose|text: String| text@ == req.body && #[trigger] then(text);
        assert(<String as FromRequest>::extracts(req, Ok(text)));
    }
}

/// A function that can serve as a handler. `P` is the tuple of its parameter
/// types, `R` what it returns, and `M` the way in which an `R` ends in a
/// response.
pub trait HandlerFactory<P, R, M> {
    /// Whether the function may be called on whatever arguments are extracted.
    spec fn callable(&self) -> bool;

    /// Whether `reply` is what `exec` may give for `req`: the failure of the
    /// first parameter, in declaration order, whose extraction fails; or,
    /// where none fails, the response that the function's result ends in
    /// when it is called on the extracted arguments.
    spec fn answers(&self, req: HttpRequestView, reply: ReplyView) -> bool;

    /// Extracts the arguments from the request in declaration order, calls
    /// the function on them, and turns what it returns into the response. The
    /// first extraction that fails ends the call, and the function is not run.
    fn exec(&self, req: &HttpRequest) -> (reply: Reply)
        requires
            self.callable(),
        ensures
            self.answers(req@, reply_view(reply)),
    ;
}

impl<T, R, M> HandlerFactory<(), R, M> for T where T: Fn() -> R, R: HandlerResult<M> {
    open spec fn callable(&self) -> bool {
        call_requires(*self, ())
    }

    open spec fn answers(&self, req: HttpRequestView, reply: ReplyView) -> bool {
        exists|result: R| #[trigger] call_ensures(*self, (), result) && result.ends_in(reply)
    }

    fn exec(&self, _req: &HttpRequest) -> (reply: Reply) {
        let result = (self)();
        result.into_reply()
    }
}

impl<T, R, M, A> HandlerFactory<(A, ), R, M> for T where
    T: Fn(A) -> R,
    R: HandlerResult<M>,
    A: FromRequest,
 {
    open spec fn callable(&self) -> bool {
        forall|a: A| call_requires(*self, (a, ))
    }

    open spec fn answers(&self, req: HttpRequestView, reply: ReplyView) -> bool {
        extracting(
            req,
            reply,
            |a: A|
                exists|result: R| #[trigger]
                    call_ensures(*self, (a, ), result) && result.ends_in(reply),
        )
    }

    fn exec(&self, req: &HttpRequest) -> (reply: Reply) {
        let a = match A::from_request(req) {
            Ok(a) => a,
            Err(e) => {
                return Err(HandlerError::Extraction(e));
            },
        };
        let result = (self)(a);
        result.into_reply()
    }
}

impl<T, R, M, A, B> HandlerFactory<(A, B), R, M> for T where
    T: Fn(A, B) -> R,
    R: HandlerResult<M>,
    A: FromRequest,
    B: FromRequest,
 {
    open spec fn callable(&self) -> bool {
        forall|a: A, b: B| call_requires(*self, (a, b))
    }

    open spec fn answers(&self, req: HttpRequestView, reply: ReplyView) -> bool {
        extracting(
            req,
            reply,
            |a: A|
                extracting(
                    req,
                    reply,
                    |b: B|
                        exists|result: R| #[trigger]
                            call_ensures(*self, (a, b), result) && result.ends_in(reply),
                ),
        )
    }

    fn exec(&self, req: &HttpRequest) -> (reply: Reply) {
        let a = match A::from_request(req) {
            Ok(a) => a,
            Err(e) => {
                return Err(HandlerError::Extraction(e));
            },
        };
        let b = match B::from_request(req) {
            Ok(b) => b,
            Err(e) => {
                return Err(HandlerError::Extraction(e));
            },
        };
        let result = (self)(a, b);
        result.into_reply()
    }
}

impl<T, R, M, A, B, C> HandlerFactory<(A, B, C), R, M> for T where
    T: Fn(A, B, C) -> R,
    R: HandlerResult<M>,
    A: FromRequest,
    B: FromRequest,
    C: FromRequest,
 {
    open spec fn callable(&self) -> bool {
        forall|a: A, b: B, c: C| call_requires(*self, (a, b, c))
    }

    open spec fn answers(&self, req: HttpRequestView, reply: ReplyView) -> bool {
        extracting(
            req,
            reply,
            |a: A|
                extracting(
                    req,
                    reply,
                    |b: B|
                        extracting(
                            req,
                            reply,
                            |c: C|
                                exists|result: R| #[trigger]
                                    call_ensures(*self, (a, b, c), result) && result.ends_in(reply),
                        ),
                ),
        )
    }

    fn exec(&self, req: &HttpRequest) -> (reply: Reply) {
        let a = match A::from_request(req) {
            Ok(a) => a,
            Err(e) => {
                return Err(HandlerError::Extraction(e));
            },
        };
        let b = match B::from_request(req) {
            Ok(b) => b,
            Err(e) => {
                return Err(HandlerError::Extraction(e));
            },
        };
        let c = match C::from_request(req) {
            Ok(c) => c,
            Err(e) => {
                return Err(HandlerError::Extraction(e));
            },
        };
        let result = (self)(a, b, c);
        result.into_reply()
    }
}

/// What being a handler says of a function of no parameter. The definitions
/// above do not unfold by themselves where the function's type is a concrete
/// one; there this restates them.
pub proof fn lemma_nullary_handler<T, R, M>(function: T) where T: Fn() -> R, R: HandlerResult<M>
    ensures
        HandlerFactory::<(), R, M>::callable(&function) <==> call_requires(function, ()),
        forall|req: HttpRequestView, reply: ReplyView| #[trigger]
            HandlerFactory::<(), R, M>::answers(&function, req, reply) <==> exists|result: R|
                #[trigger] call_ensures(function, (), result) && result.ends_in(reply),
{
}

/// What being a handler says of a function of one parameter.
pub proof fn lemma_unary_handler<T, R, M, A>(function: T) where
    T: Fn(A) -> R,
    R: HandlerResult<M>,
    A: FromRequest,

    ensures
        HandlerFactory::<(A, ), R, M>::callable(&function) <==> forall|a: A|
            call_requires(function, (a, )),
        forall|req: HttpRequestView, reply: ReplyView| #[trigger]
            HandlerFactory::<(A, ), R, M>::answers(&function, req, reply) <==> extracting(
                req,
                reply,
                |a: A|
                    exists|result: R| #[trigger]
                        call_ensures(function, (a, ), result) && result.ends_in(reply),
            ),
{
}

/// What being a handler says of a function of two parameters.
pub proof fn lemma_binary_handler<T, R, M, A, B>(function: T) where
    T: Fn(A, B) -> R,
    R: HandlerResult<M>,
    A: FromRequest,
    B: FromRequest,

    ensures
        HandlerFactory::<(A, B), R, M>::callable(&function) <==> forall|a: A, b: B|
            call_requires(function, (a, b)),
        forall|req: HttpRequestView, reply: ReplyView| #[trigger]
            HandlerFactory::<(A, B), R, M>::answers(&function, req, reply) <==> extracting(
                req,
                reply,
                |a: A|
                    extracting(
                        req,
                        reply,
                        |b: B|
                            exists|result: R| #[trigger]
                                call_ensures(function, (a, b), result) && result.ends_in(reply),
                    ),
            ),
{
}

/// What being a handler says of a function of three parameters.
pub proof fn lemma_ternary_handler<T, R, M, A, B, C>(function: T) where
    T: Fn(A, B, C) -> R,
    R: HandlerResult<M>,
    A: FromRequest,
    B: FromRequest,
    C: FromRequest,

    ensures
        HandlerFactory::<(A, B, C), R, M>::callable(&function) <==> forall|a: A, b: B, c: C|
            call_requires(function, (a, b, c)),
        forall|req: HttpRequestView, reply: ReplyView| #[trigger]
            HandlerFactory::<(A, B, C), R, M>::answers(&function, req, reply) <==> extracting(
                req,
                reply,
                |a: A|
                    extracting(
                        req,
                        reply,
                        |b: B|
                            extracting(
                                req,
                                reply,
                                |c: C|
                                    exists|result: R| #[trigger]
                                        call_ensures(function, (a, b, c), result)
                                            && result.ends_in(reply),
                            ),
                    ),
            ),
{
}

/// A handler function under the uniform shape: it is kept by reference
/// together with its parameter and result types, which no longer show.
pub struct Adapted<H: HandlerFactory<P, R, M> + 'static, P, R, M> {
    function: &'static H,
    shape: PhantomData<(P, R, M)>,
}

impl<H: HandlerFactory<P, R, M> + 'static, P, R, M> Adapted<H, P, R, M> {
    #[verifier::type_invariant]
    spec fn function_is_callable(self) -> bool {
        self.function.callable()
    }

    /// The function that was adapted.
    pub closed spec fn function(self) -> &'static H {
        self.function
    }

    /// Puts `function` under the uniform shape.
    pub fn new(function: &'static H) -> (adapted: Self)
        requires
            function.callable(),
        ensures
            adapted.function() == function,
    {
        Adapted { function, shape: PhantomData }
    }
}

impl<H: HandlerFactory<P, R, M> + 'static, P, R, M> Handler for Adapted<H, P, R, M> {
    open spec fn answers(&self, req: HttpRequestView, reply: ReplyView) -> bool {
        self.function().answers(req, reply)
    }

    fn call(&self, req: &HttpRequest) -> (reply: Reply) {
        proof {
            use_type_invariant(self);
        }
        self.function.exec(req)
    }
}

} // verus!
