//! Requests and responses as plain values.

use vstd::prelude::*;
use vstd::utf8::encode_utf8;
use crate::error::{status_of, ServeError};
use crate::text::{contains_line_break, eq_ignore_ascii_case, has_line_break, same_ignoring_ascii_case};

verus! {

/// One header line: a name and its value.
#[derive(Clone, Debug, PartialEq, Eq)]
pub struct Header {
    pub name: String,
    pub value: String,
}

impl View for Header {
    type V = (Seq<char>, Seq<char>);

    open spec fn view(&self) -> (Seq<char>, Seq<char>) {
        (self.name@, self.value@)
    }
}

/// A list of headers as pairs of texts.
pub open spec fn header_views(headers: Seq<Header>) -> Seq<(Seq<char>, Seq<char>)> {
    headers.map_values(|h: Header| h@)
}

/// A header that cannot end its own line: neither name nor value holds a line break.
pub open spec fn header_is_safe(header: (Seq<char>, Seq<char>)) -> bool {
    !has_line_break(header.0) && !has_line_break(header.1)
}

/// Whether some header of the list goes by `name`; header names ignore ASCII case.
pub open spec fn has_header(headers: Seq<(Seq<char>, Seq<char>)>, name: Seq<char>) -> bool {
    exists|i: int| 0 <= i < headers.len() && eq_ignore_ascii_case(#[trigger] headers[i].0, name)
}

/// Whether the header at `i` is the first of the list that goes by `name`.
pub open spec fn is_first_header(
    headers: Seq<(Seq<char>, Seq<char>)>,
    name: Seq<char>,
    i: int,
) -> bool {
    &&& 0 <= i < headers.len()
    &&& eq_ignore_ascii_case(headers[i].0, name)
    &&& forall|j: int| 0 <= j < i ==> !eq_ignore_ascii_case(#[trigger] headers[j].0, name)
}

/// The list with `name: value` added at its end, unless a header already goes by `name`.
pub open spec fn with_default_header(
    headers: Seq<(Seq<char>, Seq<char>)>,
    name: Seq<char>,
    value: Seq<char>,
) -> Seq<(Seq<char>, Seq<char>)> {
    if has_header(headers, name) {
        headers
    } else {
        headers.push((name, value))
    }
}

/// Whether `value` is what a lookup of `name` gives: the value of the first header that goes by
/// `name`, or nothing where no header does.
pub open spec fn is_header_value(
    headers: Seq<(Seq<char>, Seq<char>)>,
    name: Seq<char>,
    value: Option<&str>,
) -> bool {
    match value {
        Some(v) => exists|i: int|
            is_first_header(headers, name, i) && v@ == (#[trigger] headers[i]).1,
        None => !has_header(headers, name),
    }
}

/// Looks up the value of the first header that goes by `name`, ignoring ASCII case.
pub fn find_header<'a>(headers: &'a Vec<Header>, name: &str) -> (value: Option<&'a str>)
    ensures
        is_header_value(header_views(headers@), name@, value),
{
    let ghost views = header_views(headers@);
    let mut i: usize = 0;
    while i < headers.len()
        invariant
            i <= headers.len(),
            views == header_views(headers@),
            forall|j: int| 0 <= j < i ==> !eq_ignore_ascii_case(#[trigger] views[j].0, name@),
        decreases headers.len() - i,
    {
        if same_ignoring_ascii_case(headers[i].name.as_str(), name) {
            assert(is_first_header(views, name@, i as int));
            return Some(headers[i].value.as_str());
        }
        i += 1;
    }
    None
}

/// What a request is: its method, its path, and its headers in order.
pub struct RequestView {
    pub method: Seq<char>,
    pub path: Seq<char>,
    pub headers: Seq<(Seq<char>, Seq<char>)>,
}

/// A request as the server read it. Handlers read it and never change it.
#[derive(Clone, Debug, PartialEq, Eq)]
pub struct InboundRequest {
    pub method: String,
    pub path: String,
    pub headers: Vec<Header>,
}

impl View for InboundRequest {
    type V = RequestView;

    open spec fn view(&self) -> RequestView {
        RequestView {
            method: self.method@,
            path: self.path@,
            headers: header_views(self.headers@),
        }
    }
}

impl InboundRequest {
    /// A request without headers.
    pub fn new(method: &str, path: &str) -> (request: InboundRequest)
        ensures
            request@ == (RequestView { method: method@, path: path@, headers: Seq::empty() }),
    {
        let request = InboundRequest {
            method: String::from_str(method),
            path: String::from_str(path),
            headers: Vec::new(),
        };
        assert(request@.headers =~= Seq::empty());
        request
    }

    /// The value of the first header that goes by `name`, ignoring ASCII case.
    pub fn header(&self, name: &str) -> (value: Option<&str>)
        ensures
            is_header_value(self@.headers, name@, value),
    {
        find_header(&self.headers, name)
    }
}

/// What a response is: a status, headers in order, and the bytes of the body.
pub struct ResponseView {
    pub status: u16,
    pub headers: Seq<(Seq<char>, Seq<char>)>,
    pub body: Seq<u8>,
}

impl ResponseView {
    /// A status in the range of HTTP, and headers that cannot break out of their lines.
    pub open spec fn wf(self) -> bool {
        &&& 100 <= self.status <= 599
        &&& forall|i: int| 0 <= i < self.headers.len() ==> header_is_safe(#[trigger] self.headers[i])
    }
}

/// The response to one request.
#[derive(Clone, Debug, PartialEq, Eq)]
pub struct OutboundResponse {
    pub status: u16,
    pub headers: Vec<Header>,
    pub body: Vec<u8>,
}

impl View for OutboundResponse {
    type V = ResponseView;

    open spec fn view(&self) -> ResponseView {
        ResponseView { status: self.status, headers: header_views(self.headers@), body: self.body@ }
    }
}

/// The response to a text handler: status 200, the text as UTF-8, and its content type.
pub open spec fn text_response(text: Seq<char>) -> ResponseView {
    ResponseView {
        status: 200,
        headers: seq![("Content-Type"@, "text/plain; charset=utf-8"@)],
        body: encode_utf8(text),
    }
}

/// The response that hands on a JSON body: status 200, the bytes as they are.
pub open spec fn json_response(body: Seq<u8>) -> ResponseView {
    ResponseView {
        status: 200,
        headers: seq![("Content-Type"@, "application/json"@)],
        body: body,
    }
}

/// The response to a failure: its status, and neither headers nor body.
pub open spec fn error_response(error: ServeError) -> ResponseView {
    ResponseView { status: status_of(error), headers: Seq::empty(), body: Seq::empty() }
}

/// The response with `name: value` added, unless it already has a header of that name.
pub open spec fn stamped(response: ResponseView, name: Seq<char>, value: Seq<char>) -> ResponseView {
    ResponseView {
        status: response.status,
        headers: with_default_header(response.headers, name, value),
        body: response.body,
    }
}

impl OutboundResponse {
    /// Well-formedness of the response, see `ResponseView::wf`.
    pub open spec fn wf(&self) -> bool {
        self@.wf()
    }

    /// A response without headers. `None` when `status` is no HTTP status (100 to 599).
    pub fn new(status: u16, body: Vec<u8>) -> (response: Option<OutboundResponse>)
        ensures
            response is Some <==> 100 <= status <= 599,
            response matches Some(r) ==> r@ == (ResponseView {
                status: status,
                headers: Seq::empty(),
                body: body@,
            }) && r.wf(),
    {
        if 100 <= status && status <= 599 {
            let r = OutboundResponse { status, headers: Vec::new(), body };
            assert(header_views(r.headers@) =~= Seq::empty());
            Some(r)
        } else {
            None
        }
    }

    /// Status 200 with `text` as the body.
    pub fn text(text: &str) -> (response: OutboundResponse)
        ensures
            response@ == text_response(text@),
            response.wf(),
    {
        let mut headers: Vec<Header> = Vec::new();
        headers.push(
            Header {
                name: String::from_str("Content-Type"),
                value: String::from_str("text/plain; charset=utf-8"),
            },
        );
        let r = OutboundResponse { status: 200, headers, body: text.as_bytes_vec() };
        proof {
            lemma_content_types_are_safe();
            assert(r@.headers =~= text_response(text@).headers);
        }
        r
    }

    /// Status 200 with `body` handed on byte for byte, declared as JSON.
    pub fn json(body: Vec<u8>) -> (response: OutboundResponse)
        ensures
            response@ == json_response(body@),
            response.wf(),
    {
        let mut headers: Vec<Header> = Vec::new();
        headers.push(
            Header {
                name: String::from_str("Content-Type"),
                value: String::from_str("application/json"),
            },
        );
        let r = OutboundResponse { status: 200, headers, body };
        proof {
            lemma_content_types_are_safe();
            assert(r@.headers =~= json_response(body@).headers);
        }
        r
    }

    /// The response to a failure. It says nothing of the fault beyond its status.
    pub fn failure(error: ServeError) -> (response: OutboundResponse)
        ensures
            response@ == error_response(error),
            response.wf(),
    {
        let r = OutboundResponse { status: error.status_code(), headers: Vec::new(), body: Vec::new() };
        assert(r@.headers =~= Seq::empty());
        r
    }

    /// The value of the first header that goes by `name`, ignoring ASCII case.
    pub fn header(&self, name: &str) -> (value: Option<&str>)
        ensures
            is_header_value(self@.headers, name@, value),
    {
        find_header(&self.headers, name)
    }

    /// Adds `name: value` unless a header of that name is there. Refuses, and changes nothing, when
    /// `name` or `value` holds a line break.
    pub fn set_default_header(&mut self, name: &str, value: &str) -> (accepted: bool)
        ensures
            accepted == header_is_safe((name@, value@)),
            accepted ==> final(self)@ == stamped(old(self)@, name@, value@),
            !accepted ==> *final(self) == *old(self),
            old(self).wf() ==> final(self).wf(),
    {
        if contains_line_break(name) || contains_line_break(value) {
            return false;
        }
        if self.header(name).is_some() {
            return true;
        }
        self.headers.push(Header { name: String::from_str(name), value: String::from_str(value) });
        proof {
            assert(self@.headers =~= old(self)@.headers.push((name@, value@)));
        }
        true
    }
}

/// The content types that the library writes hold no line break.
pub proof fn lemma_content_types_are_safe()
    ensures
        header_is_safe(("Content-Type"@, "text/plain; charset=utf-8"@)),
        header_is_safe(("Content-Type"@, "application/json"@)),
{
    reveal_strlit("Content-Type");
    reveal_strlit("text/plain; charset=utf-8");
    reveal_strlit("application/json");
}

/// A text response is well formed.
pub proof fn lemma_text_response_wf(text: Seq<char>)
    ensures
        text_response(text).wf(),
{
    lemma_content_types_are_safe();
}

/// A JSON response is well formed.
pub proof fn lemma_json_response_wf(body: Seq<u8>)
    ensures
        json_response(body).wf(),
{
    lemma_content_types_are_safe();
}

/// The response to a failure is well formed.
pub proof fn lemma_error_response_wf(error: ServeError)
    ensures
        error_response(error).wf(),
{
}

/// A safe header keeps a well-formed response well formed.
pub proof fn lemma_stamped_wf(response: ResponseView, name: Seq<char>, value: Seq<char>)
    requires
        response.wf(),
        header_is_safe((name, value)),
    ensures
        stamped(response, name, value).wf(),
{
}

} // verus!
