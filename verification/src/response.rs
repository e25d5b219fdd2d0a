//! Snapshots of HTTP responses, as the idempotency ledger keeps them.

use vstd::prelude::*;
use vstd::string::*;

verus! {

/// One header of a response.
#[derive(Debug, PartialEq, Eq)]
pub struct Header {
    pub name: String,
    pub value: String,
}

/// The mathematical value of a [`Header`].
pub struct HeaderView {
    pub name: Seq<char>,
    pub value: Seq<char>,
}

impl View for Header {
    type V = HeaderView;

    open spec fn view(&self) -> HeaderView {
        HeaderView { name: self.name@, value: self.value@ }
    }
}

impl Clone for Header {
    fn clone(&self) -> (copy: Header)
        ensures
            copy@ == self@,
    {
        Header { name: self.name.clone(), value: self.value.clone() }
    }
}

/// A response reduced to what a client observes: status, headers and body.
#[derive(Debug, PartialEq, Eq)]
pub struct HttpResponseSnapshot {
    pub status_code: u16,
    pub headers: Vec<Header>,
    pub body: Vec<u8>,
}

/// The mathematical value of an [`HttpResponseSnapshot`].
pub struct ResponseView {
    pub status_code: u16,
    pub headers: Seq<HeaderView>,
    pub body: Seq<u8>,
}

impl View for HttpResponseSnapshot {
    type V = ResponseView;

    open spec fn view(&self) -> ResponseView {
        ResponseView {
            status_code: self.status_code,
            headers: self.headers@.map_values(|h: Header| h@),
            body: self.body@,
        }
    }
}

impl Clone for HttpResponseSnapshot {
    fn clone(&self) -> (copy: HttpResponseSnapshot)
        ensures
            copy@ == self@,
    {
        let mut headers: Vec<Header> = Vec::new();
        let mut i: usize = 0;
        while i < self.headers.len()
            invariant
                i <= self.headers.len(),
                headers@.len() == i,
                forall|j: int| 0 <= j < i ==> (#[trigger] headers@[j])@ == self.headers@[j]@,
            decreases self.headers.len() - i,
        {
            headers.push(self.headers[i].clone());
            i += 1;
        }
        let mut body: Vec<u8> = Vec::new();
        let mut k: usize = 0;
        while k < self.body.len()
            invariant
                k <= self.body.len(),
                body@ == self.body@.take(k as int),
            decreases self.body.len() - k,
        {
            body.push(self.body[k]);
            assert(self.body@.take(k + 1) == self.body@.take(k as int).push(self.body@[k as int]));
            k += 1;
        }
        assert(self.body@.take(k as int) == self.body@);
        let copy = HttpResponseSnapshot { status_code: self.status_code, headers, body };
        assert(copy@.headers == self@.headers);
        copy
    }
}

/// Status 200: the request succeeded.
pub const OK: u16 = 200;

/// Status 303: the client is sent to another location.
pub const SEE_OTHER: u16 = 303;

/// Status 400: the request is malformed.
pub const BAD_REQUEST: u16 = 400;

/// Status 401: the request carries no authenticated user.
pub const UNAUTHORIZED: u16 = 401;

/// Status 500: the server failed.
pub const INTERNAL_SERVER_ERROR: u16 = 500;

/// A response with a status and nothing else.
pub open spec fn bare_response(status_code: u16) -> ResponseView {
    ResponseView { status_code, headers: Seq::empty(), body: Seq::empty() }
}

/// A response with a status and a text as its body, encoded as UTF-8.
pub open spec fn text_response(status_code: u16, text: Seq<char>) -> ResponseView {
    ResponseView { status_code, headers: Seq::empty(), body: vstd::utf8::encode_utf8(text) }
}

/// The redirect to a location: status 303, one `Location` header, no body.
pub open spec fn see_other_response(location: Seq<char>) -> ResponseView {
    ResponseView {
        status_code: SEE_OTHER,
        headers: seq![HeaderView { name: "Location"@, value: location }],
        body: Seq::empty(),
    }
}

impl HttpResponseSnapshot {
    /// A response with a status and nothing else.
    pub fn new(status_code: u16) -> (response: HttpResponseSnapshot)
        ensures
            response@ == bare_response(status_code),
    {
        let response = HttpResponseSnapshot { status_code, headers: Vec::new(), body: Vec::new() };
        assert(response@.headers == Seq::<HeaderView>::empty());
        response
    }
}

/// Answers with status 500 and the error's text as the body.
pub fn e500(error: &str) -> (response: HttpResponseSnapshot)
    ensures
        response@ == text_response(INTERNAL_SERVER_ERROR, error@),
{
    let response = HttpResponseSnapshot {
        status_code: INTERNAL_SERVER_ERROR,
        headers: Vec::new(),
        body: error.as_bytes_vec(),
    };
    assert(response@.headers == Seq::<HeaderView>::empty());
    response
}

/// Answers with status 400 and the error's text as the body.
pub fn e400(error: &str) -> (response: HttpResponseSnapshot)
    ensures
        response@ == text_response(BAD_REQUEST, error@),
{
    let response = HttpResponseSnapshot {
        status_code: BAD_REQUEST,
        headers: Vec::new(),
        body: error.as_bytes_vec(),
    };
    assert(response@.headers == Seq::<HeaderView>::empty());
    response
}

/// Redirects the client to a location.
pub fn see_other(location: &str) -> (response: HttpResponseSnapshot)
    ensures
        response@ == see_other_response(location@),
{
    let mut headers: Vec<Header> = Vec::new();
    headers.push(Header { name: "Location".to_owned(), value: location.to_owned() });
    let response = HttpResponseSnapshot { status_code: SEE_OTHER, headers, body: Vec::new() };
    assert(response@.headers == see_other_response(location@).headers);
    response
}

} // verus!
