//! HTTP requests: what to send, and how to read what comes back.
//!
//! The request itself runs on a thread of its own; this module decides what
//! the request carries and turns the response body into a payload.

use vstd::prelude::*;
use vstd::utf8::{decode_utf8, valid_utf8};

verus! {

#[derive(Debug, Clone, Copy, PartialEq, Eq, Structural)]
pub enum Method {
    Post,
    Put,
    Get,
    Delete,
}

/// How the response body is to be handed back.
#[derive(Debug, Clone, Copy, PartialEq, Eq, Structural)]
pub enum RequestResponseType {
    Text,
    Bytes,
}

/// A response body.
#[derive(Debug)]
pub enum ResponsePayload {
    Text(String),
    Bytes(Vec<u8>),
}

/// Relies on `String::from_utf8`: the text the bytes encode, when they are
/// valid UTF-8.
#[verifier::external_body]
fn utf8_string(bytes: Vec<u8>) -> (r: Option<String>)
    ensures
        r is Some <==> valid_utf8(bytes@),
        r matches Some(s) ==> s@ == decode_utf8(bytes@),
{
    String::from_utf8(bytes).ok()
}

/// The view of a payload: its text, or its bytes.
pub ghost enum PayloadView {
    Text(Seq<char>),
    Bytes(Seq<u8>),
}

/// The view of an optional payload.
pub open spec fn payload_view(p: Option<ResponsePayload>) -> Option<PayloadView> {
    match p {
        Some(ResponsePayload::Text(s)) => Some(PayloadView::Text(s@)),
        Some(ResponsePayload::Bytes(b)) => Some(PayloadView::Bytes(b@)),
        None => None,
    }
}

/// The payload of `body` read as `ty`: the bytes as they are, or the text they
/// encode when they are valid UTF-8.
pub open spec fn payload_of(body: Seq<u8>, ty: RequestResponseType) -> Option<PayloadView> {
    match ty {
        RequestResponseType::Bytes => Some(PayloadView::Bytes(body)),
        RequestResponseType::Text => if valid_utf8(body) {
            Some(PayloadView::Text(decode_utf8(body)))
        } else {
            None
        },
    }
}

impl ResponsePayload {
    /// The payload for a response body read as `response_type`; `None` when
    /// text was asked for and the body is not valid UTF-8.
    pub fn from_body(body: Vec<u8>, response_type: RequestResponseType) -> (r: Option<
        ResponsePayload,
    >)
        ensures
            payload_view(r) == payload_of(body@, response_type),
    {
        match response_type {
            RequestResponseType::Bytes => Some(ResponsePayload::Bytes(body)),
            RequestResponseType::Text => match utf8_string(body) {
                Some(s) => Some(ResponsePayload::Text(s)),
                None => None,
            },
        }
    }
}

impl Method {
    /// Whether requests of this method carry a body.
    pub fn allows_body(&self) -> (r: bool)
        ensures
            r == (*self is Post || *self is Put),
    {
        match self {
            Method::Post | Method::Put => true,
            Method::Get | Method::Delete => false,
        }
    }
}

/// The views of a list of header name and value pairs.
pub open spec fn header_views(h: Seq<(String, String)>) -> Seq<(Seq<char>, Seq<char>)> {
    h.map_values(|p: (String, String)| (p.0@, p.1@))
}

/// The view of an optional string.
pub open spec fn opt_view(s: Option<String>) -> Option<Seq<char>> {
    match s {
        Some(t) => Some(t@),
        None => None,
    }
}

/// A request, ready to be made.
#[derive(Debug)]
pub struct HttpCall {
    pub method: Method,
    pub url: String,
    pub headers: Vec<(String, String)>,
    /// The body to send; `None` for an empty body, and always `None` for a
    /// method that carries none.
    pub body: Option<String>,
    pub response_type: RequestResponseType,
}

/// Builds a request: by default a `GET` with no headers and no body, whose
/// response is read as text.
pub struct RequestBuilder {
    url: String,
    method: Method,
    headers: Vec<(String, String)>,
    body: Option<String>,
    response_type: RequestResponseType,
}

impl RequestBuilder {
    pub closed spec fn spec_url(&self) -> Seq<char> {
        self.url@
    }

    pub closed spec fn spec_method(&self) -> Method {
        self.method
    }

    pub closed spec fn spec_headers(&self) -> Seq<(Seq<char>, Seq<char>)> {
        header_views(self.headers@)
    }

    pub closed spec fn spec_body(&self) -> Option<Seq<char>> {
        opt_view(self.body)
    }

    pub closed spec fn spec_response_type(&self) -> RequestResponseType {
        self.response_type
    }

    pub fn new(url: &str) -> (r: RequestBuilder)
        ensures
            r.spec_url() == url@,
            r.spec_method() == Method::Get,
            r.spec_headers() == Seq::<(Seq<char>, Seq<char>)>::empty(),
            r.spec_body() is None,
            r.spec_response_type() == RequestResponseType::Text,
    {
        let r = RequestBuilder {
            url: url.to_owned(),
            method: Method::Get,
            headers: Vec::new(),
            body: None,
            response_type: RequestResponseType::Text,
        };
        assert(r.spec_headers() =~= Seq::empty());
        r
    }

    pub fn method(self, method: Method) -> (r: RequestBuilder)
        ensures
            r.spec_method() == method,
            r.spec_url() == self.spec_url(),
            r.spec_headers() == self.spec_headers(),
            r.spec_body() == self.spec_body(),
            r.spec_response_type() == self.spec_response_type(),
    {
        RequestBuilder { method, ..self }
    }

    /// Adds a header; earlier headers are kept, in order.
    pub fn header(self, header: &str, value: &str) -> (r: RequestBuilder)
        ensures
            r.spec_headers() == self.spec_headers().push((header@, value@)),
            r.spec_method() == self.spec_method(),
            r.spec_url() == self.spec_url(),
            r.spec_body() == self.spec_body(),
            r.spec_response_type() == self.spec_response_type(),
    {
        let mut headers = self.headers;
        let ghost before = headers@;
        headers.push((header.to_owned(), value.to_owned()));
        assert(header_views(headers@) =~= header_views(before).push((header@, value@)));
        RequestBuilder { headers, ..self }
    }

    pub fn body(self, body: &str) -> (r: RequestBuilder)
        ensures
            r.spec_body() == Some(body@),
            r.spec_method() == self.spec_method(),
            r.spec_url() == self.spec_url(),
            r.spec_headers() == self.spec_headers(),
            r.spec_response_type() == self.spec_response_type(),
    {
        RequestBuilder { body: Some(body.to_owned()), ..self }
    }

    pub fn response_type(self, response_type: RequestResponseType) -> (r: RequestBuilder)
        ensures
            r.spec_response_type() == response_type,
            r.spec_method() == self.spec_method(),
            r.spec_url() == self.spec_url(),
            r.spec_headers() == self.spec_headers(),
            r.spec_body() == self.spec_body(),
    {
        RequestBuilder { response_type, ..self }
    }

    /// The request to make: the body goes with `POST` and `PUT` only.
    pub fn into_call(self) -> (r: HttpCall)
        ensures
            r.method == self.spec_method(),
            r.url@ == self.spec_url(),
            header_views(r.headers@) == self.spec_headers(),
            opt_view(r.body) == (if self.spec_method() is Post || self.spec_method() is Put {
                self.spec_body()
            } else {
                None
            }),
            r.response_type == self.spec_response_type(),
    {
        let body = if self.method.allows_body() {
            self.body
        } else {
            None
        };
        HttpCall {
            method: self.method,
            url: self.url,
            headers: self.headers,
            body,
            response_type: self.response_type,
        }
    }
}

} // verus!
