//! The relay: what is asked of the upstream, and what its answer becomes for the client.
//!
//! The exchange itself is the caller's work. The library says which request to send, and turns
//! whatever came back into the one response that the client gets.

use vstd::prelude::*;
use crate::error::{RelayError, ServeError};
use crate::message::{error_response, header_views, json_response, Header, OutboundResponse, ResponseView};

verus! {

/// The upstream that the service relays unless it is given another.
pub const UPSTREAM_URL: &'static str = "https://cat-fact.herokuapp.com/facts/random";

/// A GET request to the upstream.
#[derive(Clone, Debug, PartialEq, Eq)]
pub struct UpstreamRequest {
    /// The absolute URL to fetch.
    pub url: String,
    pub headers: Vec<Header>,
}

/// What an upstream request is: its target and its headers in order.
pub struct UpstreamRequestView {
    pub url: Seq<char>,
    pub headers: Seq<(Seq<char>, Seq<char>)>,
}

impl View for UpstreamRequest {
    type V = UpstreamRequestView;

    open spec fn view(&self) -> UpstreamRequestView {
        UpstreamRequestView { url: self.url@, headers: header_views(self.headers@) }
    }
}

/// The upstream's answer, read to the end.
#[derive(Clone, Debug, PartialEq, Eq)]
pub struct UpstreamResponse {
    pub status: u16,
    pub headers: Vec<Header>,
    pub body: Vec<u8>,
}

/// The request that fetches `target`: the URL as given, and the service's `User-Agent`.
pub open spec fn request_for(target: Seq<char>) -> UpstreamRequestView {
    UpstreamRequestView { url: target, headers: seq![("User-Agent"@, "Actix-web"@)] }
}

/// What the client gets for each end of the exchange. A body read to the end is handed on byte
/// for byte under status 200, whatever status and headers the upstream sent with it; an upstream
/// that could not be reached, or whose body broke off, is answered with a bad gateway.
pub open spec fn relayed(outcome: Result<Seq<u8>, RelayError>) -> ResponseView {
    match outcome {
        Ok(body) => json_response(body),
        Err(e) => error_response(ServeError::Relay(e)),
    }
}

/// The body of an exchange, or the way in which it failed.
pub open spec fn body_of(outcome: Result<UpstreamResponse, RelayError>) -> Result<Seq<u8>, RelayError> {
    match outcome {
        Ok(response) => Ok(response.body@),
        Err(e) => Err(e),
    }
}

/// Builds the request that fetches `target`.
pub fn async_req(target: &str) -> (request: UpstreamRequest)
    ensures
        request@ == request_for(target@),
{
    let mut headers: Vec<Header> = Vec::new();
    headers.push(Header { name: String::from_str("User-Agent"), value: String::from_str("Actix-web") });
    let request = UpstreamRequest { url: String::from_str(target), headers };
    assert(request@.headers =~= request_for(target@).headers);
    request
}

/// Turns the end of the exchange into the client's response.
pub fn relay_response(outcome: Result<UpstreamResponse, RelayError>) -> (response: OutboundResponse)
    ensures
        response@ == relayed(body_of(outcome)),
        response.wf(),
{
    match outcome {
        Ok(upstream) => OutboundResponse::json(upstream.body),
        Err(e) => OutboundResponse::failure(ServeError::Relay(e)),
    }
}

} // verus!
