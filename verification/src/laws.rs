//! What holds of every request: the laws of the service.

use vstd::prelude::*;
use vstd::utf8::encode_utf8;
use crate::error::{status_of, RelayError, RoutingError, ServeError};
use crate::handlers::{hello_text, hello_world_text, index_result, test_text};
use crate::message::{
    error_response, has_header, json_response, lemma_error_response_wf, lemma_json_response_wf,
    lemma_stamped_wf, lemma_text_response_wf, text_response, ResponseView,
};
use crate::pattern::{first_value, Capture};
use crate::relay::{relayed, request_for};
use crate::router::dispatch_result;
use crate::routes::{
    greeting_path, is_path_of, is_segment, is_served, lemma_dispatch_greeting, lemma_dispatch_pages,
    lemma_dispatch_served, lemma_dispatch_unserved,
};
use crate::service::{
    action_for, completion, handler_action, lemma_version_headers_are_safe, route_table,
    with_resource_version, with_version, ActionView, Handler,
};
use crate::text::{eq_ignore_ascii_case, has_line_break};

verus! {

/// The response to a failure, with the service's version header.
pub open spec fn failure_page(error: ServeError) -> ResponseView {
    ResponseView {
        status: status_of(error),
        headers: seq![("X-Version"@, "0.2"@)],
        body: Seq::empty(),
    }
}

/// The response that carries a text, with the service's version header.
pub open spec fn text_page(text: Seq<char>) -> ResponseView {
    ResponseView {
        status: 200,
        headers: seq![("Content-Type"@, "text/plain; charset=utf-8"@), ("X-Version"@, "0.2"@)],
        body: encode_utf8(text),
    }
}

/// The response of the second resource, which adds a header of its own.
pub open spec fn second_page() -> ResponseView {
    ResponseView {
        status: 200,
        headers: seq![
            ("Content-Type"@, "text/plain; charset=utf-8"@),
            ("X-Version-R2"@, "0.3"@),
            ("X-Version"@, "0.2"@),
        ],
        body: encode_utf8(hello_world_text()),
    }
}

/// The response that hands on the upstream's body, with the service's version header.
pub open spec fn relayed_page(body: Seq<u8>) -> ResponseView {
    ResponseView {
        status: 200,
        headers: seq![("Content-Type"@, "application/json"@), ("X-Version"@, "0.2"@)],
        body: body,
    }
}

/// The names of the headers that the service writes differ, ASCII case set aside.
proof fn lemma_header_names_differ()
    ensures
        !eq_ignore_ascii_case("Content-Type"@, "X-Version"@),
        !eq_ignore_ascii_case("Content-Type"@, "X-Version-R2"@),
        !eq_ignore_ascii_case("X-Version-R2"@, "X-Version"@),
{
    reveal_strlit("Content-Type");
    reveal_strlit("X-Version");
    reveal_strlit("X-Version-R2");
    assert("Content-Type"@[0] == 'C' && "X-Version-R2"@[0] == 'X');
}

/// What the version headers add to the responses of the handlers.
proof fn lemma_versioned_pages()
    ensures
        forall|text: Seq<char>| #[trigger] with_version(text_response(text)) == text_page(text),
        forall|body: Seq<u8>| #[trigger] with_version(json_response(body)) == relayed_page(body),
        forall|error: ServeError| #[trigger]
            with_version(error_response(error)) == failure_page(error),
        with_version(with_resource_version(text_response(hello_world_text()))) == second_page(),
{
    lemma_header_names_differ();
    assert forall|text: Seq<char>| #[trigger]
        with_version(text_response(text)) == text_page(text) by {
        let headers = text_response(text).headers;
        assert(!has_header(headers, "X-Version"@));
        assert(with_version(text_response(text)).headers =~= text_page(text).headers);
    }
    assert forall|body: Seq<u8>| #[trigger]
        with_version(json_response(body)) == relayed_page(body) by {
        let headers = json_response(body).headers;
        assert(!has_header(headers, "X-Version"@));
        assert(with_version(json_response(body)).headers =~= relayed_page(body).headers);
    }
    assert forall|error: ServeError| #[trigger]
        with_version(error_response(error)) == failure_page(error) by {
        let headers = error_response(error).headers;
        assert(!has_header(headers, "X-Version"@));
        assert(with_version(error_response(error)).headers =~= failure_page(error).headers);
    }
    let first = text_response(hello_world_text());
    assert(!has_header(first.headers, "X-Version-R2"@));
    let second = with_resource_version(first);
    assert(second.headers =~= seq![
        ("Content-Type"@, "text/plain; charset=utf-8"@),
        ("X-Version-R2"@, "0.3"@),
    ]);
    assert(!has_header(second.headers, "X-Version"@));
    assert(with_version(second).headers =~= second_page().headers);
}

/// A GET of the greeting's path, for every name that is one segment without a line break, is
/// answered with status 200 and the greeting for that name, byte for byte.
pub proof fn law_greeting(upstream: Seq<char>, name: Seq<char>)
    requires
        is_segment(name),
        !has_line_break(name),
    ensures
        action_for(upstream, "GET"@, greeting_path(name)) == ActionView::Respond(
            text_page(hello_text(name)),
        ),
        text_page(hello_text(name)).status == 200,
        text_page(hello_text(name)).body == encode_utf8("Hello: "@ + name + "!\r\n"@),
{
    lemma_dispatch_greeting(name);
    assert(first_value(seq![("name"@, name)], "name"@) == Some(name));
    lemma_versioned_pages();
}

/// A GET of the greeting's path with a line break in the name is refused with status 400: no
/// such name is echoed.
pub proof fn law_greeting_refused(upstream: Seq<char>, name: Seq<char>)
    requires
        is_segment(name),
        has_line_break(name),
    ensures
        action_for(upstream, "GET"@, greeting_path(name)) == ActionView::Respond(
            failure_page(ServeError::MalformedRequest),
        ),
        failure_page(ServeError::MalformedRequest).status == 400,
{
    lemma_dispatch_greeting(name);
    assert(first_value(seq![("name"@, name)], "name"@) == Some(name));
    lemma_versioned_pages();
}

/// A GET of each path that the route table spells out is answered with its page, and a GET of
/// either relayed path with the request for the upstream.
pub proof fn lemma_pages(upstream: Seq<char>)
    ensures
        action_for(upstream, "GET"@, "/"@) == ActionView::Respond(text_page(hello_world_text())),
        action_for(upstream, "GET"@, "/resource2/index.html"@) == ActionView::Respond(second_page()),
        action_for(upstream, "GET"@, "/test1.html"@) == ActionView::Respond(text_page(test_text())),
        action_for(upstream, "GET"@, "/catfacts"@) == ActionView::Relay(request_for(upstream)),
        action_for(upstream, "GET"@, "/catfacts2"@) == ActionView::Relay(request_for(upstream)),
{
    lemma_dispatch_pages();
    lemma_versioned_pages();
}

/// A request for a path without a route is answered with status 404, whatever its method.
pub proof fn law_not_found(upstream: Seq<char>, method: Seq<char>, path: Seq<char>)
    requires
        !is_served(path),
    ensures
        action_for(upstream, method, path) == ActionView::Respond(
            failure_page(ServeError::Routing(RoutingError::NotFound)),
        ),
        failure_page(ServeError::Routing(RoutingError::NotFound)).status == 404,
{
    lemma_dispatch_unserved(method, path);
    lemma_versioned_pages();
}

/// A request for a path that has a route, under a method other than GET, is answered with
/// status 405.
pub proof fn law_method_not_allowed(upstream: Seq<char>, method: Seq<char>, path: Seq<char>)
    requires
        is_served(path),
        method != "GET"@,
    ensures
        action_for(upstream, method, path) == ActionView::Respond(
            failure_page(ServeError::Routing(RoutingError::MethodNotAllowed)),
        ),
        failure_page(ServeError::Routing(RoutingError::MethodNotAllowed)).status == 405,
{
    let i = choose|i: int| 0 <= i < 6 && #[trigger] is_path_of(path, i);
    lemma_dispatch_served(method, path, i);
    lemma_versioned_pages();
}

/// A body that the upstream sent to the end reaches the client byte for byte, under status 200
/// and as JSON; an exchange that failed is answered with status 502.
pub proof fn law_relay(outcome: Result<Seq<u8>, RelayError>)
    ensures
        match outcome {
            Ok(body) => completion(outcome) == relayed_page(body),
            Err(e) => completion(outcome) == failure_page(ServeError::Relay(e))
                && completion(outcome).status == 502,
        },
{
    lemma_versioned_pages();
}

/// Every response of the service is well formed: its status is one of HTTP, and no header of
/// it holds a line break, whatever the request said and however the exchange with the upstream
/// ended.
pub proof fn law_responses_are_well_formed(
    upstream: Seq<char>,
    method: Seq<char>,
    path: Seq<char>,
    outcome: Result<Seq<u8>, RelayError>,
)
    ensures
        action_for(upstream, method, path) matches ActionView::Respond(response) ==> response.wf(),
        completion(outcome).wf(),
{
    lemma_version_headers_are_safe();
    match dispatch_result(route_table(), method, path) {
        Ok(matched) => {
            match handler_action(upstream, matched.handler, matched.params) {
                ActionView::Respond(response) => {
                    lemma_handler_response_wf(upstream, matched.handler, matched.params);
                    lemma_stamped_wf(response, "X-Version"@, "0.2"@);
                },
                ActionView::Relay(_) => {},
            }
        },
        Err(e) => {
            lemma_error_response_wf(ServeError::Routing(e));
            lemma_stamped_wf(error_response(ServeError::Routing(e)), "X-Version"@, "0.2"@);
        },
    }
    match outcome {
        Ok(body) => {
            lemma_json_response_wf(body);
        },
        Err(e) => {
            lemma_error_response_wf(ServeError::Relay(e));
        },
    }
    lemma_stamped_wf(relayed(outcome), "X-Version"@, "0.2"@);
}

/// The response of a handler is well formed.
proof fn lemma_handler_response_wf(upstream: Seq<char>, handler: Handler, params: Seq<Capture>)
    ensures
        handler_action(upstream, handler, params) matches ActionView::Respond(response)
            ==> response.wf(),
{
    lemma_version_headers_are_safe();
    match handler {
        Handler::Index => {
            match first_value(params, "name"@) {
                Some(name) => match index_result(name) {
                    Ok(text) => {
                        lemma_text_response_wf(text);
                    },
                    Err(e) => {
                        lemma_error_response_wf(e);
                    },
                },
                None => {
                    lemma_error_response_wf(ServeError::Routing(RoutingError::NotFound));
                },
            }
        },
        Handler::NoParams => {
            lemma_text_response_wf(hello_world_text());
        },
        Handler::IndexAsync => {
            lemma_text_response_wf(hello_world_text());
            lemma_stamped_wf(text_response(hello_world_text()), "X-Version-R2"@, "0.3"@);
        },
        Handler::Test1 => {
            lemma_text_response_wf(test_text());
        },
        Handler::CatFacts => {},
        Handler::CatFacts2 => {},
    }
}

} // verus!
