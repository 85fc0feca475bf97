use hello_relay::error::RelayError;
use hello_relay::message::{Header, InboundRequest, OutboundResponse};
use hello_relay::relay::{UpstreamRequest, UpstreamResponse, UPSTREAM_URL};
use hello_relay::service::{Action, Service};

fn page_header(name: &str, value: &str) -> Header {
    Header { name: name.to_string(), value: value.to_string() }
}

fn get(path: &str) -> InboundRequest {
    InboundRequest::new("GET", path)
}

fn respond(method: &str, path: &str) -> OutboundResponse {
    match Service::new(UPSTREAM_URL).handle(&InboundRequest::new(method, path)) {
        Action::Respond(response) => response,
        Action::Relay(request) => panic!("expected a response, got the relay of {:?}", request),
    }
}

fn text_page(text: &str) -> OutboundResponse {
    OutboundResponse {
        status: 200,
        headers: vec![
            page_header("Content-Type", "text/plain; charset=utf-8"),
            page_header("X-Version", "0.2"),
        ],
        body: text.as_bytes().to_vec(),
    }
}

fn failure_page(status: u16) -> OutboundResponse {
    OutboundResponse { status, headers: vec![page_header("X-Version", "0.2")], body: Vec::new() }
}

fn upstream_answer(status: u16, body: &[u8]) -> UpstreamResponse {
    UpstreamResponse { status, headers: Vec::new(), body: body.to_vec() }
}

#[test]
fn the_greeting_echoes_the_name() {
    let response = respond("GET", "/resource1/Ferris/index.html");
    assert_eq!(response.status, 200);
    assert_eq!(response.body, b"Hello: Ferris!\r\n".to_vec());
    assert_eq!(response, text_page("Hello: Ferris!\r\n"));
}

#[test]
fn the_greeting_echoes_every_name_of_one_segment() {
    for name in ["a", "x.y", "hello world", "żółw", "{name}", "%2F", "index.html", "resource1", "?", "#"] {
        let path = format!("/resource1/{}/index.html", name);
        let response = respond("GET", &path);
        assert_eq!(response.status, 200);
        assert_eq!(response.body, format!("Hello: {}!\r\n", name).into_bytes());
    }
}

#[test]
fn the_greeting_needs_a_name() {
    assert_eq!(respond("GET", "/resource1//index.html"), failure_page(404));
    assert_eq!(respond("GET", "/resource1/index.html"), failure_page(404));
}

#[test]
fn the_greeting_takes_one_segment_only() {
    assert_eq!(respond("GET", "/resource1/a/b/index.html"), failure_page(404));
}

#[test]
fn a_name_with_a_line_break_is_refused() {
    assert_eq!(respond("GET", "/resource1/a\r\nb/index.html"), failure_page(400));
    assert_eq!(respond("GET", "/resource1/\n/index.html"), failure_page(400));
    assert_eq!(respond("GET", "/resource1/a\r/index.html"), failure_page(400));
}

#[test]
fn the_root_greets_the_world() {
    let response = respond("GET", "/");
    assert_eq!(response.status, 200);
    assert_eq!(response.body, b"Hello world!\r\n".to_vec());
    assert_eq!(response, text_page("Hello world!\r\n"));
}

#[test]
fn the_test_page_is_served() {
    let response = respond("GET", "/test1.html");
    assert_eq!(response.status, 200);
    assert_eq!(response.body, b"Test\r\n".to_vec());
    assert_eq!(response, text_page("Test\r\n"));
}

#[test]
fn the_second_resource_adds_its_version() {
    let response = respond("GET", "/resource2/index.html");
    assert_eq!(response.status, 200);
    assert_eq!(response.header("X-Version-R2"), Some("0.3"));
    assert_eq!(response.body, b"Hello world!\r\n".to_vec());
    assert_eq!(
        response.headers,
        vec![
            page_header("Content-Type", "text/plain; charset=utf-8"),
            page_header("X-Version-R2", "0.3"),
            page_header("X-Version", "0.2"),
        ]
    );
}

#[test]
fn the_second_resource_allows_get_only() {
    assert_eq!(respond("POST", "/resource2/index.html").status, 405);
    assert_eq!(respond("POST", "/resource2/index.html"), failure_page(405));
    assert_eq!(respond("PUT", "/resource2/index.html"), failure_page(405));
    assert_eq!(respond("DELETE", "/resource2/index.html"), failure_page(405));
    assert_eq!(respond("HEAD", "/resource2/index.html"), failure_page(405));
}

#[test]
fn every_route_allows_get_only() {
    for path in ["/", "/test1.html", "/catfacts", "/catfacts2", "/resource1/x/index.html"] {
        assert_eq!(respond("POST", path), failure_page(405));
        assert_eq!(respond("get", path), failure_page(405));
    }
}

#[test]
fn an_unknown_path_is_not_found() {
    assert_eq!(respond("GET", "/nope").status, 404);
    assert_eq!(respond("GET", "/nope"), failure_page(404));
}

#[test]
fn no_other_path_is_found() {
    for path in [
        "", "//", "/test1.html/", "/Test1.html", "/catfacts/", "/catfacts3", "/resource2",
        "/resource2/index.html/", "/resource2/x/index.html", "/resource1/x/index.htm", "nope",
        "/resource1/x", "test1.html", "/test1.html?x=1",
    ] {
        assert_eq!(respond("GET", path), failure_page(404));
        assert_eq!(respond("POST", path), failure_page(404));
    }
}

#[test]
fn every_response_carries_the_version() {
    for (method, path) in [
        ("GET", "/"),
        ("GET", "/test1.html"),
        ("GET", "/resource2/index.html"),
        ("GET", "/resource1/x/index.html"),
        ("GET", "/resource1/\n/index.html"),
        ("POST", "/"),
        ("GET", "/nope"),
    ] {
        assert_eq!(respond(method, path).header("X-Version"), Some("0.2"));
    }
    let service = Service::new(UPSTREAM_URL);
    assert_eq!(service.complete(Ok(upstream_answer(200, b"{}"))).header("x-version"), Some("0.2"));
    assert_eq!(
        service.complete(Err(RelayError::UpstreamUnavailable)).header("X-VERSION"),
        Some("0.2")
    );
}

#[test]
fn both_relayed_routes_ask_the_same_upstream() {
    let service = Service::new(UPSTREAM_URL);
    let expected = Action::Relay(UpstreamRequest {
        url: "https://cat-fact.herokuapp.com/facts/random".to_string(),
        headers: vec![page_header("User-Agent", "Actix-web")],
    });
    assert_eq!(service.handle(&get("/catfacts")), expected);
    assert_eq!(service.handle(&get("/catfacts2")), expected);
}

#[test]
fn the_upstream_can_be_replaced() {
    let service = Service::new("http://127.0.0.1:9/mock");
    match service.handle(&get("/catfacts")) {
        Action::Relay(request) => assert_eq!(request.url, "http://127.0.0.1:9/mock"),
        Action::Respond(response) => panic!("expected a relay, got {:?}", response),
    }
}

#[test]
fn the_upstream_body_passes_through() {
    let service = Service::new(UPSTREAM_URL);
    for path in ["/catfacts", "/catfacts2"] {
        assert!(matches!(service.handle(&get(path)), Action::Relay(_)));
        let response = service.complete(Ok(upstream_answer(200, b"{\"fact\":\"x\"}")));
        assert_eq!(response.status, 200);
        assert_eq!(response.header("Content-Type"), Some("application/json"));
        assert_eq!(response.body, b"{\"fact\":\"x\"}".to_vec());
        assert_eq!(
            response.headers,
            vec![page_header("Content-Type", "application/json"), page_header("X-Version", "0.2")]
        );
    }
}

#[test]
fn an_unreachable_upstream_is_answered_and_the_service_goes_on() {
    let service = Service::new(UPSTREAM_URL);
    assert!(matches!(service.handle(&get("/catfacts")), Action::Relay(_)));
    let response = service.complete(Err(RelayError::UpstreamUnavailable));
    assert_eq!(response.status, 502);
    assert_eq!(response, failure_page(502));
    assert_eq!(service.handle(&get("/")), Action::Respond(text_page("Hello world!\r\n")));
    assert!(matches!(service.handle(&get("/catfacts")), Action::Relay(_)));
    let response = service.complete(Ok(upstream_answer(200, b"{\"fact\":\"x\"}")));
    assert_eq!(response.status, 200);
}

#[test]
fn a_body_that_breaks_off_is_a_bad_gateway() {
    let service = Service::new(UPSTREAM_URL);
    let response = service.complete(Err(RelayError::UpstreamBodyReadError));
    assert_eq!(response, failure_page(502));
}

#[test]
fn requests_do_not_depend_on_one_another() {
    let service = Service::new(UPSTREAM_URL);
    let first = service.handle(&get("/catfacts"));
    let between = service.handle(&get("/"));
    let second = service.handle(&get("/catfacts2"));
    let late = service.complete(Ok(upstream_answer(200, b"2")));
    let early = service.complete(Ok(upstream_answer(200, b"1")));
    assert_eq!(first, second);
    assert_eq!(between, Action::Respond(text_page("Hello world!\r\n")));
    assert_eq!(early.body, b"1".to_vec());
    assert_eq!(late.body, b"2".to_vec());
}
