//! The route table: handlers stored under (method, path) keys in the order of
//! their registration, and the dispatch of a request to every one that matches.

use vstd::prelude::*;
use crate::handler::{reply_view, Adapted, Handler, HandlerFactory, Reply, ReplyView};
use crate::http::{HttpRequest, HttpRequestView, Method, RouteKey};
use crate::text::str_eq;

verus! {

/// A handler under the uniform shape, with its own type erased.
pub type BoxedHandler = Box<dyn Handler>;

/// One entry of a route table: a key and the handler bound to it, kept as an
/// `H`. The table keeps its handlers as [`BoxedHandler`].
pub struct RouteItem<H> {
    path: &'static str,
    method: Method,
    handler: H,
}

/// An entry of the route table, with the handler's type erased.
pub type Route = RouteItem<BoxedHandler>;

impl<H> RouteItem<H> {
    /// The (method, path) pair that the entry is registered under.
    pub closed spec fn key(&self) -> RouteKey {
        RouteKey { method: self.method, path: self.path@ }
    }

    /// The handler that the entry binds to its key.
    pub closed spec fn handler(&self) -> H {
        self.handler
    }

    /// The entry that binds `handler` to (`method`, `path`).
    pub fn new(method: Method, path: &'static str, handler: H) -> (item: Self)
        ensures
            item.key() == (RouteKey { method, path: path@ }),
            item.handler() == handler,
    {
        RouteItem { path, method, handler }
    }
}

impl RouteItem<BoxedHandler> {
    /// Whether `reply` is what invoking the entry's handler on `req` may give.
    pub open spec fn answers(&self, req: HttpRequestView, reply: ReplyView) -> bool {
        self.handler().answers(req, reply)
    }
}

/// The outcome of a dispatch that found no route: the key that was looked up.
#[derive(Clone, Copy, Debug, PartialEq, Eq)]
pub struct RouteNotFound {
    pub method: Method,
    pub path: &'static str,
}

impl View for RouteNotFound {
    type V = RouteKey;

    open spec fn view(&self) -> RouteKey {
        RouteKey { method: self.method, path: self.path@ }
    }
}

/// The positions, in increasing order, of the entries of `routes` that are
/// registered under `key`.
pub open spec fn matching(routes: Seq<Route>, key: RouteKey) -> Seq<int>
    decreases routes.len(),
{
    if routes.len() == 0 {
        Seq::empty()
    } else {
        let earlier = matching(routes.drop_last(), key);
        if routes.last().key() == key {
            earlier.push(routes.len() - 1)
        } else {
            earlier
        }
    }
}

/// Whether `outcome` is what dispatching `req` over `routes` may give: one
/// reply for each entry registered under the request's key, in the order of
/// registration, or the report that there is no such entry.
pub open spec fn dispatched(
    routes: Seq<Route>,
    req: HttpRequestView,
    outcome: Result<Vec<Reply>, RouteNotFound>,
) -> bool {
    let hits = matching(routes, req.key());
    match outcome {
        Ok(replies) => {
            &&& hits.len() > 0
            &&& replies@.len() == hits.len()
            &&& forall|k: int|
                #![trigger routes[hits[k]]]
                #![trigger replies@[k]]
                0 <= k < hits.len() ==> routes[hits[k]].answers(req, reply_view(replies@[k]))
        },
        Err(missing) => hits.len() == 0 && missing@ == req.key(),
    }
}

/// The route table. Entries are only ever appended, and several may share a key.
pub struct Dispatcher {
    handlers: Vec<Route>,
}

impl View for Dispatcher {
    type V = Seq<Route>;

    closed spec fn view(&self) -> Seq<Route> {
        self.handlers@
    }
}

impl Dispatcher {
    /// A table with no route.
    pub fn new() -> (table: Self)
        ensures
            table@ == Seq::<Route>::empty(),
    {
        Dispatcher { handlers: Vec::new() }
    }

    /// Registers `handler` under (`method`, `path`), after every route that
    /// is already there, and hands back the table as it then is. The path is
    /// kept as it is and compared exactly. For a function that asks nothing
    /// of its arguments, `callable` follows from the lemma of its arity in
    /// the `handler` module.
    pub fn add<H, P, R, M>(
        &mut self,
        method: Method,
        path: &'static str,
        handler: &'static H,
    ) -> (table: &Self) where
        H: HandlerFactory<P, R, M> + 'static,
        P: 'static,
        R: 'static,
        M: 'static,

        requires
            handler.callable(),
        ensures
            final(self)@ == old(self)@.push(final(self)@.last()),
            final(self)@.last().key() == (RouteKey { method, path: path@ }),
            forall|req: HttpRequestView, reply: ReplyView|
                #[trigger] final(self)@.last().answers(req, reply) == handler.answers(req, reply),
            *table == *final(self),
    {
        let adapted = Adapted::new(handler);
        let boxed: BoxedHandler = Box::new(adapted);
        assert(forall|req: HttpRequestView, reply: ReplyView| #[trigger]
            boxed.answers(req, reply) == handler.answers(req, reply));
        let item = RouteItem::new(method, path, boxed);
        self.handlers.push(item);
        assert(self.handlers@.last() == item);
        self
    }

    /// Invokes, in the order of registration, every handler whose route has
    /// the request's method and path, and collects their replies. A handler
    /// that gives no response, because an argument could not be extracted or
    /// because its computation could not be waited for, does not keep the
    /// later ones from running. Where no route matches, nothing is invoked
    /// and the missing key is reported.
    pub fn dispatch(&self, req: &HttpRequest) -> (outcome: Result<Vec<Reply>, RouteNotFound>)
        ensures
            dispatched(self@, req@, outcome),
    {
        let mut replies: Vec<Reply> = Vec::new();
        let n: usize = self.handlers.len();
        let mut i: usize = 0;
        while i < n
            invariant
                i <= n,
                n == self.handlers@.len(),
                replies@.len() == matching(
                    self.handlers@.subrange(0, i as int),
                    req@.key(),
                ).len(),
                forall|k: int|
                    0 <= k < replies@.len() ==> (#[trigger] self.handlers@[matching(
                        self.handlers@.subrange(0, i as int),
                        req@.key(),
                    )[k]]).answers(req@, reply_view(replies@[k])),
                forall|k: int|
                    0 <= k < replies@.len() ==> 0 <= #[trigger] matching(
                        self.handlers@.subrange(0, i as int),
                        req@.key(),
                    )[k] < i,
            decreases n - i,
        {
            let route = &self.handlers[i];
            let ghost before = matching(self.handlers@.subrange(0, i as int), req@.key());
            proof {
                let longer = self.handlers@.subrange(0, i + 1);
                assert(longer.drop_last() =~= self.handlers@.subrange(0, i as int));
                assert(longer.last() == self.handlers@[i as int]);
            }
            if route.method == req.method() && str_eq(route.path, req.path()) {
                let reply = route.handler.call(req);
                replies.push(reply);
                assert(matching(self.handlers@.subrange(0, i + 1), req@.key()) == before.push(
                    i as int,
                ));
            } else {
                assert(matching(self.handlers@.subrange(0, i + 1), req@.key()) == before);
            }
            i += 1;
        }
        assert(self.handlers@.subrange(0, n as int) =~= self.handlers@);
        if replies.len() == 0 {
            Err(RouteNotFound { method: req.method(), path: req.path() })
        } else {
            Ok(replies)
        }
    }
}

/// Registering a route puts its position after those that a key already
/// matched, where the route is registered under that key, and changes
/// nothing for any other key.
pub proof fn lemma_matching_after_registration(routes: Seq<Route>, item: Route, key: RouteKey)
    ensures
        matching(routes.push(item), key) == if item.key() == key {
            matching(routes, key).push(routes.len() as int)
        } else {
            matching(routes, key)
        },
{
    assert(routes.push(item).drop_last() =~= routes);
}

/// `matching` lists the positions of the entries registered under `key`, and
/// no other: each exactly once, in increasing order.
pub proof fn lemma_matching_lists_key(routes: Seq<Route>, key: RouteKey)
    ensures
        forall|k: int|
            #![trigger matching(routes, key)[k]]
            0 <= k < matching(routes, key).len() ==> {
                &&& 0 <= matching(routes, key)[k] < routes.len()
                &&& routes[matching(routes, key)[k]].key() == key
            },
        forall|a: int, b: int|
            #![trigger matching(routes, key)[a], matching(routes, key)[b]]
            0 <= a < b < matching(routes, key).len() ==> matching(routes, key)[a] < matching(
                routes,
                key,
            )[b],
        forall|i: int|
            0 <= i < routes.len() && (#[trigger] routes[i]).key() == key ==> matching(
                routes,
                key,
            ).contains(i),
    decreases routes.len(),
{
    if routes.len() > 0 {
        let shorter = routes.drop_last();
        let earlier = matching(shorter, key);
        let hits = matching(routes, key);
        lemma_matching_lists_key(shorter, key);
        assert forall|k: int| 0 <= k < hits.len() implies 0 <= #[trigger] hits[k] < routes.len()
            && routes[hits[k]].key() == key by {
            if k < earlier.len() {
                assert(hits[k] == earlier[k]);
                assert(shorter[earlier[k]] == routes[earlier[k]]);
            }
        }
        assert forall|a: int, b: int| 0 <= a < b < hits.len() implies #[trigger] hits[a]
            < #[trigger] hits[b] by {
            assert(hits[a] == earlier[a]);
            if b < earlier.len() {
                assert(hits[b] == earlier[b]);
            }
        }
        assert forall|i: int|
            0 <= i < routes.len() && (#[trigger] routes[i]).key() == key implies hits.contains(
            i,
        ) by {
            if i < shorter.len() {
                assert(shorter[i].key() == key);
                let k = choose|k: int| 0 <= k < earlier.len() && earlier[k] == i;
                assert(hits[k] == i);
            } else {
                assert(hits[hits.len() - 1] == i);
            }
        }
    }
}

/// Where exactly one route is registered under the request's key, the
/// dispatch gives exactly one reply, and it is that route's handler's.
pub proof fn lemma_single_route_answers_once(
    routes: Seq<Route>,
    req: HttpRequestView,
    outcome: Result<Vec<Reply>, RouteNotFound>,
    i: int,
)
    requires
        dispatched(routes, req, outcome),
        0 <= i < routes.len(),
        routes[i].key() == req.key(),
        forall|j: int|
            0 <= j < routes.len() && j != i ==> (#[trigger] routes[j]).key() != req.key(),
    ensures
        matching(routes, req.key()) == seq![i],
        outcome matches Ok(replies) && replies@.len() == 1 && routes[i].answers(
            req,
            reply_view(replies@[0]),
        ),
{
    let hits = matching(routes, req.key());
    lemma_matching_lists_key(routes, req.key());
    assert(hits.contains(i));
    assert forall|k: int| 0 <= k < hits.len() implies #[trigger] hits[k] == i by {
        assert(routes[hits[k]].key() == req.key());
    }
    if hits.len() > 1 {
        assert(hits[0] < hits[1]);
    }
    assert(hits =~= seq![i]);
    assert(routes[hits[0]].answers(req, reply_view(outcome->Ok_0@[0])));
}

/// Where two routes are registered under the request's key, the dispatch
/// gives a reply of each, that of the one registered first before that of
/// the other.
pub proof fn lemma_same_key_in_registration_order(
    routes: Seq<Route>,
    req: HttpRequestView,
    outcome: Result<Vec<Reply>, RouteNotFound>,
    i: int,
    j: int,
)
    requires
        dispatched(routes, req, outcome),
        0 <= i < j < routes.len(),
        routes[i].key() == req.key(),
        routes[j].key() == req.key(),
    ensures
        outcome matches Ok(replies) && exists|a: int, b: int|
            {
                &&& 0 <= a < b < replies@.len()
                &&& #[trigger] matching(routes, req.key())[a] == i
                &&& #[trigger] matching(routes, req.key())[b] == j
                &&& routes[i].answers(req, reply_view(replies@[a]))
                &&& routes[j].answers(req, reply_view(replies@[b]))
            },
{
    let hits = matching(routes, req.key());
    lemma_matching_lists_key(routes, req.key());
    assert(hits.contains(i));
    assert(hits.contains(j));
    let a = choose|a: int| 0 <= a < hits.len() && hits[a] == i;
    let b = choose|b: int| 0 <= b < hits.len() && hits[b] == j;
    if b < a {
        assert(hits[b] < hits[a]);
    }
    let replies = outcome->Ok_0;
    assert(routes[hits[a]].answers(req, reply_view(replies@[a])));
    assert(routes[hits[b]].answers(req, reply_view(replies@[b])));
}

/// Where the two routes `i` and `j` are the only ones registered under the
/// request's key, the dispatch gives exactly two replies: first that of the
/// one registered first, then that of the other.
pub proof fn lemma_two_routes_answer_in_order(
    routes: Seq<Route>,
    req: HttpRequestView,
    outcome: Result<Vec<Reply>, RouteNotFound>,
    i: int,
    j: int,
)
    requires
        dispatched(routes, req, outcome),
        0 <= i < j < routes.len(),
        routes[i].key() == req.key(),
        routes[j].key() == req.key(),
        forall|k: int|
            0 <= k < routes.len() && k != i && k != j ==> (#[trigger] routes[k]).key()
                != req.key(),
    ensures
        matching(routes, req.key()) == seq![i, j],
        outcome matches Ok(replies) && replies@.len() == 2 && routes[i].answers(
            req,
            reply_view(replies@[0]),
        ) && routes[j].answers(req, reply_view(replies@[1])),
{
    let hits = matching(routes, req.key());
    lemma_matching_lists_key(routes, req.key());
    assert forall|k: int| 0 <= k < hits.len() implies #[trigger] hits[k] == i || hits[k] == j by {
        assert(routes[hits[k]].key() == req.key());
    }
    assert(hits.contains(i));
    assert(hits.contains(j));
    assert(hits[0] < hits[1]);
    if hits.len() > 2 {
        assert(hits[1] < hits[2]);
    }
    assert(hits =~= seq![i, j]);
    let replies = outcome->Ok_0;
    assert(routes[hits[0]].answers(req, reply_view(replies@[0])));
    assert(routes[hits[1]].answers(req, reply_view(replies@[1])));
}

/// A dispatch reports a missing route exactly where no route is registered
/// under the request's key: then no handler gives a reply, and the report
/// names the key that was looked up.
pub proof fn lemma_not_found_iff_unregistered(
    routes: Seq<Route>,
    req: HttpRequestView,
    outcome: Result<Vec<Reply>, RouteNotFound>,
)
    requires
        dispatched(routes, req, outcome),
    ensures
        outcome is Err <==> forall|i: int|
            0 <= i < routes.len() ==> (#[trigger] routes[i]).key() != req.key(),
        outcome matches Err(missing) ==> missing@ == req.key(),
{
    let hits = matching(routes, req.key());
    lemma_matching_lists_key(routes, req.key());
    if hits.len() > 0 {
        assert(routes[hits[0]].key() == req.key());
    } else {
        assert forall|i: int| 0 <= i < routes.len() implies (#[trigger] routes[i]).key()
            != req.key() by {
            if routes[i].key() == req.key() {
                assert(hits.contains(i));
            }
        }
    }
}

} // verus!
