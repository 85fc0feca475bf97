//! The service: its route table, and what it does with a request.
//!
//! Serving a request takes one step or two. `Service::handle` answers a request for a text at
//! once. For a relayed route it names the upstream request instead; the caller makes the
//! exchange and hands its outcome to `Service::complete`, which gives the response. Either way
//! one request gets one response.

use vstd::prelude::*;
use crate::error::{RelayError, RoutingError, ServeError};
use crate::handlers::{hello_world_text, index, index_async, index_result, no_params, test1, test_text};
use crate::message::{
    error_response, header_is_safe, stamped, text_response, InboundRequest, OutboundResponse,
    ResponseView,
};
use crate::pattern::{find_param, first_value, param_views, parse_pattern, Capture, Param};
use crate::relay::{
    async_req, body_of, relay_response, relayed, request_for, UpstreamRequest, UpstreamRequestView,
    UpstreamResponse,
};
use crate::router::{dispatch_result, RouteView, Router};
use crate::routes::{lemma_table_patterns, lemma_table_patterns_differ};

verus! {

/// The handlers of the service.
#[derive(Clone, Copy, Debug, PartialEq, Eq, Structural)]
pub enum Handler {
    /// Greets the name in the path.
    Index,
    /// Greets the world, at the root.
    NoParams,
    /// Greets the world, at the second resource.
    IndexAsync,
    /// The test page.
    Test1,
    /// Relays the upstream.
    CatFacts,
    /// Relays the upstream, as `CatFacts` does.
    CatFacts2,
}

/// What is to be done for a request.
#[derive(Clone, Debug, PartialEq, Eq)]
pub enum Action {
    /// Send this response.
    Respond(OutboundResponse),
    /// Send this request to the upstream, and complete with what comes back.
    Relay(UpstreamRequest),
}

/// An action in terms of views.
pub enum ActionView {
    Respond(ResponseView),
    Relay(UpstreamRequestView),
}

impl View for Action {
    type V = ActionView;

    open spec fn view(&self) -> ActionView {
        match self {
            Action::Respond(response) => ActionView::Respond(response@),
            Action::Relay(request) => ActionView::Relay(request@),
        }
    }
}

/// The routes of the service, in the order of their registration. Each is bound to GET.
pub open spec fn route_table() -> Seq<RouteView<Handler>> {
    seq![
        get_route("/resource1/{name}/index.html"@, Handler::Index),
        get_route("/"@, Handler::NoParams),
        get_route("/resource2/index.html"@, Handler::IndexAsync),
        get_route("/test1.html"@, Handler::Test1),
        get_route("/catfacts"@, Handler::CatFacts),
        get_route("/catfacts2"@, Handler::CatFacts2),
    ]
}

/// The route that binds `handler` to GET and the pattern that `pattern` writes down.
pub open spec fn get_route(pattern: Seq<char>, handler: Handler) -> RouteView<Handler> {
    RouteView { method: "GET"@, pattern: parse_pattern(pattern), handler: handler }
}

/// The response with the header that every response of the service carries.
pub open spec fn with_version(response: ResponseView) -> ResponseView {
    stamped(response, "X-Version"@, "0.2"@)
}

/// The response with the header that the second resource adds.
pub open spec fn with_resource_version(response: ResponseView) -> ResponseView {
    stamped(response, "X-Version-R2"@, "0.3"@)
}

/// What each handler does with the parameters of the path. `upstream` is the URL that the
/// relayed routes fetch. The greeting is not found where the path gave it no name.
pub open spec fn handler_action(
    upstream: Seq<char>,
    handler: Handler,
    params: Seq<Capture>,
) -> ActionView {
    match handler {
        Handler::Index => match first_value(params, "name"@) {
            Some(name) => match index_result(name) {
                Ok(text) => ActionView::Respond(text_response(text)),
                Err(e) => ActionView::Respond(error_response(e)),
            },
            None => ActionView::Respond(
                error_response(ServeError::Routing(RoutingError::NotFound)),
            ),
        },
        Handler::NoParams => ActionView::Respond(text_response(hello_world_text())),
        Handler::IndexAsync => ActionView::Respond(
            with_resource_version(text_response(hello_world_text())),
        ),
        Handler::Test1 => ActionView::Respond(text_response(test_text())),
        Handler::CatFacts => ActionView::Relay(request_for(upstream)),
        Handler::CatFacts2 => ActionView::Relay(request_for(upstream)),
    }
}

/// The action with the service's version header on its response, if it is one.
pub open spec fn versioned(action: ActionView) -> ActionView {
    match action {
        ActionView::Respond(response) => ActionView::Respond(with_version(response)),
        ActionView::Relay(request) => ActionView::Relay(request),
    }
}

/// What the service does for a request: the router picks the handler, the handler acts, and a
/// request for which the router finds no handler is answered with the status of that failure.
pub open spec fn action_for(upstream: Seq<char>, method: Seq<char>, path: Seq<char>) -> ActionView {
    match dispatch_result(route_table(), method, path) {
        Ok(matched) => versioned(handler_action(upstream, matched.handler, matched.params)),
        Err(e) => ActionView::Respond(with_version(error_response(ServeError::Routing(e)))),
    }
}

/// The response that completes a relayed request, for each end of the exchange.
pub open spec fn completion(outcome: Result<Seq<u8>, RelayError>) -> ResponseView {
    with_version(relayed(outcome))
}

/// The headers that the service adds hold no line break.
pub proof fn lemma_version_headers_are_safe()
    ensures
        header_is_safe(("X-Version"@, "0.2"@)),
        header_is_safe(("X-Version-R2"@, "0.3"@)),
{
    reveal_strlit("X-Version");
    reveal_strlit("0.2");
    reveal_strlit("X-Version-R2");
    reveal_strlit("0.3");
}

/// Adds the header that every response of the service carries.
fn add_version(response: OutboundResponse) -> (versioned: OutboundResponse)
    requires
        response.wf(),
    ensures
        versioned@ == with_version(response@),
        versioned.wf(),
{
    let mut response = response;
    proof {
        lemma_version_headers_are_safe();
    }
    response.set_default_header("X-Version", "0.2");
    response
}

/// Adds the header of the second resource.
fn add_resource_version(response: OutboundResponse) -> (versioned: OutboundResponse)
    requires
        response.wf(),
    ensures
        versioned@ == with_resource_version(response@),
        versioned.wf(),
{
    let mut response = response;
    proof {
        lemma_version_headers_are_safe();
    }
    response.set_default_header("X-Version-R2", "0.3");
    response
}

/// Runs `handler` on the parameters of the path.
fn run_handler(upstream: &str, handler: Handler, params: &Vec<Param>) -> (action: Action)
    ensures
        action@ == handler_action(upstream@, handler, param_views(params@)),
        action matches Action::Respond(response) ==> response.wf(),
{
    match handler {
        Handler::Index => match find_param(params, "name") {
            Some(name) => match index(name) {
                Ok(text) => Action::Respond(OutboundResponse::text(text.as_str())),
                Err(e) => Action::Respond(OutboundResponse::failure(e)),
            },
            None => Action::Respond(
                OutboundResponse::failure(ServeError::Routing(RoutingError::NotFound)),
            ),
        },
        Handler::NoParams => Action::Respond(OutboundResponse::text(no_params())),
        Handler::IndexAsync => Action::Respond(
            add_resource_version(OutboundResponse::text(index_async())),
        ),
        Handler::Test1 => Action::Respond(OutboundResponse::text(test1())),
        Handler::CatFacts => Action::Relay(async_req(upstream)),
        Handler::CatFacts2 => Action::Relay(async_req(upstream)),
    }
}

/// Binds the next route of the table: `handler` to GET and `pattern`. No two routes of the table
/// are the same, so the router takes it.
fn bind(router: &mut Router<Handler>, pattern: &str, handler: Handler)
    requires
        old(router).wf(),
        old(router)@.len() < 6,
        old(router)@ == route_table().take(old(router)@.len() as int),
        route_table()[old(router)@.len() as int] == get_route(pattern@, handler),
    ensures
        final(router).wf(),
        final(router)@ == route_table().take(old(router)@.len() as int + 1),
{
    proof {
        lemma_table_patterns();
        lemma_table_patterns_differ();
    }
    let ghost n = router@.len() as int;
    let outcome = router.register("GET", pattern, handler);
    assert(outcome is Ok && router@ =~= route_table().take(n + 1)) by {
        assert forall|i: int| 0 <= i < n implies old(router)@[i].pattern != parse_pattern(
            pattern@,
        ) by {
            assert(old(router)@[i] == route_table()[i]);
        }
    }
}

/// The service.
pub struct Service {
    router: Router<Handler>,
    upstream: String,
}

impl Service {
    #[verifier::type_invariant]
    spec fn inv(&self) -> bool {
        self.router@ == route_table()
    }

    /// The URL that the relayed routes fetch.
    pub closed spec fn upstream(&self) -> Seq<char> {
        self.upstream@
    }

    /// The service with its route table, relaying to `upstream`.
    pub fn new(upstream: &str) -> (service: Service)
        ensures
            service.upstream() == upstream@,
    {
        let mut router: Router<Handler> = Router::new();
        assert(router@ =~= route_table().take(0));
        bind(&mut router, "/resource1/{name}/index.html", Handler::Index);
        bind(&mut router, "/", Handler::NoParams);
        bind(&mut router, "/resource2/index.html", Handler::IndexAsync);
        bind(&mut router, "/test1.html", Handler::Test1);
        bind(&mut router, "/catfacts", Handler::CatFacts);
        bind(&mut router, "/catfacts2", Handler::CatFacts2);
        assert(route_table().take(6) =~= route_table());
        Service { router, upstream: String::from_str(upstream) }
    }

    /// Decides what to do for a request. Only its method and its path count.
    pub fn handle(&self, request: &InboundRequest) -> (action: Action)
        ensures
            action@ == action_for(self.upstream(), request@.method, request@.path),
            action matches Action::Respond(response) ==> response.wf(),
    {
        proof {
            use_type_invariant(self);
        }
        match self.router.dispatch(request.method.as_str(), request.path.as_str()) {
            Ok(matched) => match run_handler(self.upstream.as_str(), matched.handler, &matched.params) {
                Action::Respond(response) => Action::Respond(add_version(response)),
                Action::Relay(request) => Action::Relay(request),
            },
            Err(e) => Action::Respond(add_version(OutboundResponse::failure(ServeError::Routing(e)))),
        }
    }

    /// The response that completes a relayed request, given how the exchange with the upstream
    /// ended.
    pub fn complete(&self, outcome: Result<UpstreamResponse, RelayError>) -> (response:
        OutboundResponse)
        ensures
            response@ == completion(body_of(outcome)),
            response.wf(),
    {
        add_version(relay_response(outcome))
    }
}

} // verus!
