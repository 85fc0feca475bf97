use hello_relay::error::{RelayError, RoutingError, ServeError};
use hello_relay::message::{find_header, Header, InboundRequest, OutboundResponse};

fn header(name: &str, value: &str) -> Header {
    Header { name: name.to_string(), value: value.to_string() }
}

#[test]
fn each_failure_has_its_status() {
    assert_eq!(ServeError::Routing(RoutingError::NotFound).status_code(), 404);
    assert_eq!(ServeError::Routing(RoutingError::MethodNotAllowed).status_code(), 405);
    assert_eq!(ServeError::Relay(RelayError::UpstreamUnavailable).status_code(), 502);
    assert_eq!(ServeError::Relay(RelayError::UpstreamBodyReadError).status_code(), 502);
    assert_eq!(ServeError::MalformedRequest.status_code(), 400);
}

#[test]
fn a_response_needs_an_http_status() {
    assert_eq!(OutboundResponse::new(99, Vec::new()), None);
    assert_eq!(OutboundResponse::new(600, Vec::new()), None);
    assert_eq!(OutboundResponse::new(0, vec![1]), None);
    assert_eq!(OutboundResponse::new(u16::MAX, vec![1]), None);
    assert_eq!(
        OutboundResponse::new(100, vec![1, 2]),
        Some(OutboundResponse { status: 100, headers: Vec::new(), body: vec![1, 2] })
    );
    assert_eq!(
        OutboundResponse::new(599, Vec::new()),
        Some(OutboundResponse { status: 599, headers: Vec::new(), body: Vec::new() })
    );
}

#[test]
fn a_text_response_is_utf8_under_status_200() {
    let response = OutboundResponse::text("Hello: żółw!\r\n");
    assert_eq!(response.status, 200);
    assert_eq!(response.headers, vec![header("Content-Type", "text/plain; charset=utf-8")]);
    assert_eq!(response.body, "Hello: żółw!\r\n".as_bytes().to_vec());
}

#[test]
fn a_json_response_keeps_the_bytes() {
    let body = vec![0u8, 255, 10, 13, 123];
    let response = OutboundResponse::json(body.clone());
    assert_eq!(response.status, 200);
    assert_eq!(response.headers, vec![header("Content-Type", "application/json")]);
    assert_eq!(response.body, body);
}

#[test]
fn a_failure_response_says_nothing_but_its_status() {
    let response = OutboundResponse::failure(ServeError::Relay(RelayError::UpstreamUnavailable));
    assert_eq!(response, OutboundResponse { status: 502, headers: Vec::new(), body: Vec::new() });
    let response = OutboundResponse::failure(ServeError::Routing(RoutingError::NotFound));
    assert_eq!(response, OutboundResponse { status: 404, headers: Vec::new(), body: Vec::new() });
}

#[test]
fn headers_are_found_without_regard_to_ascii_case() {
    let response = OutboundResponse::json(Vec::new());
    assert_eq!(response.header("Content-Type"), Some("application/json"));
    assert_eq!(response.header("content-type"), Some("application/json"));
    assert_eq!(response.header("CONTENT-TYPE"), Some("application/json"));
    assert_eq!(response.header("Content-Length"), None);
    assert_eq!(response.header(""), None);
}

#[test]
fn the_first_header_of_a_name_is_found() {
    let response = OutboundResponse {
        status: 200,
        headers: vec![header("A", "1"), header("b", "2"), header("a", "3")],
        body: Vec::new(),
    };
    assert_eq!(response.header("a"), Some("1"));
    assert_eq!(response.header("B"), Some("2"));
}

#[test]
fn a_default_header_is_added_at_the_end() {
    let mut response = OutboundResponse::json(vec![1]);
    assert!(response.set_default_header("X-Version", "0.2"));
    assert_eq!(
        response,
        OutboundResponse {
            status: 200,
            headers: vec![header("Content-Type", "application/json"), header("X-Version", "0.2")],
            body: vec![1],
        }
    );
}

#[test]
fn a_default_header_leaves_a_header_that_is_there() {
    let mut response = OutboundResponse::json(vec![1]);
    assert!(response.set_default_header("content-type", "text/html"));
    assert_eq!(response, OutboundResponse::json(vec![1]));
}

#[test]
fn a_header_with_a_line_break_is_refused() {
    let mut response = OutboundResponse::json(vec![1]);
    assert!(!response.set_default_header("X-A\r\nX-B", "1"));
    assert!(!response.set_default_header("X-A", "1\nX-B: 2"));
    assert!(!response.set_default_header("X-A", "\r"));
    assert_eq!(response, OutboundResponse::json(vec![1]));
}

#[test]
fn a_refused_header_is_refused_even_where_the_name_is_there() {
    let mut response = OutboundResponse::json(vec![1]);
    assert!(!response.set_default_header("Content-Type", "a\nb"));
    assert_eq!(response, OutboundResponse::json(vec![1]));
}

#[test]
fn a_new_request_has_no_headers() {
    let request = InboundRequest::new("GET", "/resource1/x/index.html");
    assert_eq!(
        request,
        InboundRequest {
            method: "GET".to_string(),
            path: "/resource1/x/index.html".to_string(),
            headers: Vec::new(),
        }
    );
    assert_eq!(request.header("Accept"), None);
}

#[test]
fn request_headers_are_found_without_regard_to_ascii_case() {
    let request = InboundRequest {
        method: "GET".to_string(),
        path: "/".to_string(),
        headers: vec![header("Accept-Encoding", "gzip"), header("accept-encoding", "br")],
    };
    assert_eq!(request.header("accept-encoding"), Some("gzip"));
    assert_eq!(request.header("ACCEPT-ENCODING"), Some("gzip"));
    assert_eq!(request.header("Accept"), None);
}

#[test]
fn find_header_takes_the_first_of_a_name() {
    let headers = vec![header("a", "1"), header("B", "2"), header("A", "3")];
    assert_eq!(find_header(&headers, "A"), Some("1"));
    assert_eq!(find_header(&headers, "b"), Some("2"));
    assert_eq!(find_header(&headers, "c"), None);
    assert_eq!(find_header(&Vec::new(), "a"), None);
}
