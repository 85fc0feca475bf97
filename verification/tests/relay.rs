use hello_relay::error::RelayError;
use hello_relay::message::{Header, OutboundResponse};
use hello_relay::relay::{
    async_req, relay_response, UpstreamRequest, UpstreamResponse, UPSTREAM_URL,
};

fn relay_header(name: &str, value: &str) -> Header {
    Header { name: name.to_string(), value: value.to_string() }
}

fn upstream(status: u16, body: &[u8]) -> UpstreamResponse {
    UpstreamResponse {
        status,
        headers: vec![relay_header("Content-Type", "text/html"), relay_header("Set-Cookie", "a=b")],
        body: body.to_vec(),
    }
}

#[test]
fn the_upstream_request_names_the_target_and_the_agent() {
    assert_eq!(
        async_req("https://cat-fact.herokuapp.com/facts/random"),
        UpstreamRequest {
            url: "https://cat-fact.herokuapp.com/facts/random".to_string(),
            headers: vec![relay_header("User-Agent", "Actix-web")],
        }
    );
}

#[test]
fn the_upstream_request_takes_any_target() {
    let request = async_req("http://127.0.0.1:9/mock?x=ż");
    assert_eq!(request.url, "http://127.0.0.1:9/mock?x=ż");
    assert_eq!(request.headers, vec![relay_header("User-Agent", "Actix-web")]);
}

#[test]
fn a_body_is_relayed_byte_for_byte() {
    let response = relay_response(Ok(upstream(200, b"{\"fact\":\"x\"}")));
    assert_eq!(
        response,
        OutboundResponse {
            status: 200,
            headers: vec![relay_header("Content-Type", "application/json")],
            body: b"{\"fact\":\"x\"}".to_vec(),
        }
    );
}

#[test]
fn a_body_that_is_no_text_is_relayed_too() {
    let body: Vec<u8> = (0..=255).collect();
    let response = relay_response(Ok(upstream(200, &body)));
    assert_eq!(response.status, 200);
    assert_eq!(response.body, body);
}

#[test]
fn an_empty_body_is_relayed_as_empty() {
    let response = relay_response(Ok(upstream(200, b"")));
    assert_eq!(response.status, 200);
    assert_eq!(response.body, Vec::<u8>::new());
}

#[test]
fn the_upstream_status_and_headers_are_not_handed_on() {
    let response = relay_response(Ok(upstream(404, b"gone")));
    assert_eq!(response.status, 200);
    assert_eq!(response.headers, vec![relay_header("Content-Type", "application/json")]);
    assert_eq!(response.body, b"gone".to_vec());
}

#[test]
fn an_unreachable_upstream_is_a_bad_gateway() {
    let response = relay_response(Err(RelayError::UpstreamUnavailable));
    assert_eq!(response, OutboundResponse { status: 502, headers: Vec::new(), body: Vec::new() });
}

#[test]
fn a_broken_body_is_a_bad_gateway() {
    let response = relay_response(Err(RelayError::UpstreamBodyReadError));
    assert_eq!(response, OutboundResponse { status: 502, headers: Vec::new(), body: Vec::new() });
}

#[test]
fn the_default_upstream_is_the_cat_facts_service() {
    assert_eq!(UPSTREAM_URL, "https://cat-fact.herokuapp.com/facts/random");
    assert_eq!(async_req(UPSTREAM_URL).url, "https://cat-fact.herokuapp.com/facts/random");
}
