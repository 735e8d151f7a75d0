use std::sync::atomic::{AtomicUsize, Ordering};
use std::sync::Mutex;

use handler_dispatch::dispatcher::{Dispatcher, RouteNotFound};
use handler_dispatch::error::{HandlerError, ParseError};
use handler_dispatch::extract::FromRequest;
use handler_dispatch::handler::Reply;
use handler_dispatch::http::{HttpRequest, HttpResponse, Method};
use handler_dispatch::respond::Responder;

fn ok(text: &str) -> Reply {
    Ok(HttpResponse { body: text.to_string() })
}

fn rejected(e: ParseError) -> Reply {
    Err(HandlerError::Extraction(e))
}

struct Decimal(f64);

impl FromRequest for Decimal {
    fn from_request(req: &HttpRequest) -> Result<Self, ParseError> {
        match req.body().parse::<f64>() {
            Ok(value) => Ok(Decimal(value)),
            Err(_) if req.body().is_empty() => Err(ParseError::Empty),
            Err(_) => Err(ParseError::Invalid),
        }
    }
}

impl Responder for Decimal {
    fn response_to(&self) -> HttpResponse {
        HttpResponse { body: self.0.to_string() }
    }
}

async fn hello() {}

async fn hi() -> i32 {
    2021
}

async fn login(name: String, password: String) -> String {
    format!("{}-{}", name, password)
}

async fn new_user(msg: String, _f: Decimal) -> String {
    msg
}

async fn logout(i: i32, _msg: String) -> Decimal {
    Decimal(f64::from(i))
}

async fn list_user(_msg: String, f: Decimal, _i: i32) -> Decimal {
    f
}

fn double(n: i32) -> i32 {
    n.wrapping_mul(2)
}

fn table() -> Dispatcher {
    let mut d = Dispatcher::new();
    d.add(Method::Get, "/hello", &hello);
    d.add(Method::Get, "/hi", &hi);
    d.add(Method::Get, "/login", &login);
    d.add(Method::Post, "/users/1", &new_user);
    d.add(Method::Put, "/logout", &logout);
    d.add(Method::Delete, "/users", &list_user);
    d
}

#[test]
fn unit_handler_gives_the_unit_body() {
    let d = table();
    let out = d.dispatch(&HttpRequest::new(Method::Get, "/hello", ""));
    assert_eq!(out, Ok(vec![ok("()")]));
}

#[test]
fn integer_result_is_written_in_base_ten() {
    let d = table();
    let out = d.dispatch(&HttpRequest::new(Method::Get, "/hi", ""));
    assert_eq!(out, Ok(vec![ok("2021")]));
}

#[test]
fn every_parameter_sees_the_whole_body() {
    let d = table();
    let out = d.dispatch(&HttpRequest::new(Method::Get, "/login", "123"));
    assert_eq!(out, Ok(vec![ok("123-123")]));
}

#[test]
fn text_and_decimal_parameters_share_the_body() {
    let d = table();
    let out = d.dispatch(&HttpRequest::new(Method::Post, "/users/1", "456"));
    assert_eq!(out, Ok(vec![ok("456")]));
    let out = d.dispatch(&HttpRequest::new(Method::Post, "/users/1", "not a number"));
    assert_eq!(out, Ok(vec![rejected(ParseError::Invalid)]));
}

#[test]
fn integer_parameter_and_decimal_result() {
    let d = table();
    let out = d.dispatch(&HttpRequest::new(Method::Put, "/logout", "321"));
    assert_eq!(out, Ok(vec![ok("321")]));
}

#[test]
fn three_parameters_from_one_body() {
    let d = table();
    let out = d.dispatch(&HttpRequest::new(Method::Delete, "/users", "789"));
    assert_eq!(out, Ok(vec![ok("789")]));
}

#[test]
fn unregistered_route_is_reported() {
    let d = table();
    let out = d.dispatch(&HttpRequest::new(Method::Delete, "/not-exist", "789"));
    assert_eq!(out, Err(RouteNotFound { method: Method::Delete, path: "/not-exist" }));
}

#[test]
fn empty_table_finds_nothing() {
    let d = Dispatcher::new();
    let out = d.dispatch(&HttpRequest::new(Method::Get, "/", ""));
    assert_eq!(out, Err(RouteNotFound { method: Method::Get, path: "/" }));
}

#[test]
fn method_and_path_must_both_match_exactly() {
    let d = table();
    for (method, path) in [
        (Method::Post, "/hi"),
        (Method::Get, "/hi/"),
        (Method::Get, "/Hi"),
        (Method::Get, "hi"),
        (Method::Get, "/h"),
        (Method::Get, "/hi?x=1"),
        (Method::Get, ""),
    ] {
        let out = d.dispatch(&HttpRequest::new(method, path, "1"));
        assert_eq!(out, Err(RouteNotFound { method, path }));
    }
}

#[test]
fn plain_function_is_a_handler_too() {
    let mut d = Dispatcher::new();
    d.add(Method::Put, "/double", &double);
    let out = d.dispatch(&HttpRequest::new(Method::Put, "/double", "21"));
    assert_eq!(out, Ok(vec![ok("42")]));
    let out = d.dispatch(&HttpRequest::new(Method::Put, "/double", "x"));
    assert_eq!(out, Ok(vec![rejected(ParseError::Invalid)]));
}

static ONCE_RUNS: AtomicUsize = AtomicUsize::new(0);
static OTHER_RUNS: AtomicUsize = AtomicUsize::new(0);

fn counted() -> i32 {
    ONCE_RUNS.fetch_add(1, Ordering::SeqCst);
    1
}

fn other() -> i32 {
    OTHER_RUNS.fetch_add(1, Ordering::SeqCst);
    2
}

#[test]
fn matching_route_is_invoked_exactly_once() {
    let mut d = Dispatcher::new();
    d.add(Method::Get, "/other", &other);
    d.add(Method::Get, "/once", &counted);
    d.add(Method::Post, "/once", &other);
    let out = d.dispatch(&HttpRequest::new(Method::Get, "/once", ""));
    assert_eq!(out, Ok(vec![ok("1")]));
    assert_eq!(ONCE_RUNS.load(Ordering::SeqCst), 1);
    assert_eq!(OTHER_RUNS.load(Ordering::SeqCst), 0);
}

static MISSED_RUNS: AtomicUsize = AtomicUsize::new(0);

fn missed() {
    MISSED_RUNS.fetch_add(1, Ordering::SeqCst);
}

#[test]
fn no_handler_runs_when_no_route_matches() {
    let mut d = Dispatcher::new();
    d.add(Method::Get, "/a", &missed);
    d.add(Method::Post, "/b", &missed);
    let out = d.dispatch(&HttpRequest::new(Method::Delete, "/not-exist", ""));
    assert_eq!(out, Err(RouteNotFound { method: Method::Delete, path: "/not-exist" }));
    assert_eq!(MISSED_RUNS.load(Ordering::SeqCst), 0);
}

static ORDER: Mutex<Vec<&'static str>> = Mutex::new(Vec::new());

fn first() -> String {
    ORDER.lock().unwrap().push("first");
    "first".to_string()
}

async fn second() -> String {
    ORDER.lock().unwrap().push("second");
    "second".to_string()
}

fn third() -> String {
    ORDER.lock().unwrap().push("third");
    "third".to_string()
}

#[test]
fn routes_under_one_key_all_run_in_registration_order() {
    let mut d = Dispatcher::new();
    d.add(Method::Get, "/twice", &first);
    d.add(Method::Get, "/elsewhere", &third);
    d.add(Method::Get, "/twice", &second);
    let out = d.dispatch(&HttpRequest::new(Method::Get, "/twice", ""));
    assert_eq!(out, Ok(vec![ok("first"), ok("second")]));
    assert_eq!(*ORDER.lock().unwrap(), vec!["first", "second"]);
}

#[test]
fn same_handler_registered_twice_runs_twice() {
    let mut d = Dispatcher::new();
    d.add(Method::Put, "/double", &double);
    d.add(Method::Put, "/double", &double);
    let out = d.dispatch(&HttpRequest::new(Method::Put, "/double", "4"));
    assert_eq!(out, Ok(vec![ok("8"), ok("8")]));
}

fn length(text: String) -> i32 {
    text.len() as i32
}

#[test]
fn failed_extraction_does_not_stop_the_later_routes() {
    let mut d = Dispatcher::new();
    d.add(Method::Post, "/mixed", &length);
    d.add(Method::Post, "/mixed", &double);
    d.add(Method::Post, "/mixed", &login);
    let out = d.dispatch(&HttpRequest::new(Method::Post, "/mixed", "abc"));
    assert_eq!(out, Ok(vec![ok("3"), rejected(ParseError::Invalid), ok("abc-abc")]));
    let out = d.dispatch(&HttpRequest::new(Method::Post, "/mixed", ""));
    assert_eq!(out, Ok(vec![ok("0"), rejected(ParseError::Empty), ok("-")]));
}

#[test]
fn add_hands_the_table_back() {
    let mut d = Dispatcher::new();
    let same = d.add(Method::Get, "/hi", &hi);
    let out = same.dispatch(&HttpRequest::new(Method::Get, "/hi", ""));
    assert_eq!(out, Ok(vec![ok("2021")]));
}

#[test]
fn later_registration_does_not_change_earlier_routes() {
    let mut d = Dispatcher::new();
    d.add(Method::Get, "/hi", &hi);
    let before = d.dispatch(&HttpRequest::new(Method::Get, "/hi", ""));
    d.add(Method::Get, "/hello", &hello);
    d.add(Method::Post, "/hi", &hello);
    let after = d.dispatch(&HttpRequest::new(Method::Get, "/hi", ""));
    assert_eq!(before, after);
    assert_eq!(after, Ok(vec![ok("2021")]));
}

fn greet(name: String) -> String {
    format!("grüß dich, {}", name)
}

#[test]
fn paths_outside_ascii_are_compared_exactly() {
    let mut d = Dispatcher::new();
    d.add(Method::Get, "/grüße", &greet);
    let out = d.dispatch(&HttpRequest::new(Method::Get, "/grüße", "Zoë"));
    assert_eq!(out, Ok(vec![ok("grüß dich, Zoë")]));
    let out = d.dispatch(&HttpRequest::new(Method::Get, "/grusse", "Zoë"));
    assert_eq!(out, Err(RouteNotFound { method: Method::Get, path: "/grusse" }));
    let out = d.dispatch(&HttpRequest::new(Method::Get, "/gru\u{308}ße", "Zoë"));
    assert_eq!(out, Err(RouteNotFound { method: Method::Get, path: "/gru\u{308}ße" }));
}

async fn inner_later() -> i32 {
    7
}

fn inner_now() -> i32 {
    8
}

async fn outer() -> String {
    let mut d = Dispatcher::new();
    d.add(Method::Get, "/inner", &inner_later);
    d.add(Method::Get, "/inner", &inner_now);
    match d.dispatch(&HttpRequest::new(Method::Get, "/inner", "")) {
        Ok(replies) => format!("{:?}", replies),
        Err(missing) => format!("{:?}", missing),
    }
}

#[test]
fn dispatch_inside_a_computation_is_refused_the_wait_and_does_not_panic() {
    let mut d = Dispatcher::new();
    d.add(Method::Get, "/outer", &outer);
    let out = d.dispatch(&HttpRequest::new(Method::Get, "/outer", "")).unwrap();
    let inner: Vec<Reply> = vec![Err(HandlerError::ExecutorBusy), ok("8")];
    assert_eq!(out, vec![ok(&format!("{:?}", inner))]);
}

#[test]
fn dispatch_on_a_thread_that_runs_an_executor_is_refused_the_wait() {
    let mut d = Dispatcher::new();
    d.add(Method::Get, "/mixed", &hi);
    d.add(Method::Get, "/mixed", &double);
    d.add(Method::Get, "/mixed", &login);
    let req = HttpRequest::new(Method::Get, "/mixed", "21");
    let inside = futures::executor::block_on(async { d.dispatch(&req) });
    let busy: Reply = Err(HandlerError::ExecutorBusy);
    assert_eq!(inside, Ok(vec![busy.clone(), ok("42"), busy]));
    let outside = d.dispatch(&req);
    assert_eq!(outside, Ok(vec![ok("2021"), ok("42"), ok("21-21")]));
}

#[test]
fn failed_extraction_comes_before_the_wait() {
    let mut d = Dispatcher::new();
    d.add(Method::Get, "/later", &logout);
    let req = HttpRequest::new(Method::Get, "/later", "x");
    let inside = futures::executor::block_on(async { d.dispatch(&req) });
    assert_eq!(inside, Ok(vec![rejected(ParseError::Invalid)]));
}

#[test]
fn the_thread_is_free_again_after_a_dispatch() {
    let mut d = Dispatcher::new();
    d.add(Method::Get, "/hi", &hi);
    let req = HttpRequest::new(Method::Get, "/hi", "");
    assert_eq!(d.dispatch(&req), Ok(vec![ok("2021")]));
    assert_eq!(d.dispatch(&req), Ok(vec![ok("2021")]));
    assert_eq!(futures::executor::block_on(async { 5 }), 5);
    assert_eq!(d.dispatch(&req), Ok(vec![ok("2021")]));
}

