//! The wire data model: request and response representations in both
//! borrowed-view and owned forms, and the protocol capability that a
//! concrete engine provides.

use vstd::prelude::*;
use vstd::string::StringSliceAdditionalSpecFns;
use vstd::utf8::encode_utf8;

use crate::error::{Error, HttpClientError};

verus! {

/// An HTTP request method.
#[derive(Debug, PartialEq, Eq, Structural, Clone, Copy)]
pub enum HttpMethod {
    Get,
    Post,
}

/// A header as a pair of borrowed text views.
#[derive(Debug, PartialEq, Clone, Copy)]
pub struct HttpHeaderView<'a> {
    pub key: &'a str,
    pub value: &'a str,
}

/// A header as a pair of owned strings.
#[derive(Debug, PartialEq, Clone)]
pub struct HttpOwnedHeader {
    pub key: String,
    pub value: String,
}

/// A request: method, path, ordered headers, and body bytes.
///
/// A well-formed `GET` carries an empty body; a well-formed `POST` carries a
/// non-empty body and a header whose key matches `Content-Length`
/// case-insensitively.  The client facade enforces these shapes before any
/// I/O happens.
#[derive(Debug, PartialEq, Clone)]
pub struct HttpRequest<'a> {
    pub method: HttpMethod,
    pub path: &'a str,
    pub body: &'a [u8],
    pub headers: Vec<HttpHeaderView<'a>>,
}

/// A fully-owned response, with no lifetime coupling to the engine.
#[derive(Debug, PartialEq)]
pub struct SafeHttpResponse {
    pub status_code: u16,
    pub status_message: String,
    pub body: Vec<u8>,
    pub headers: Vec<HttpOwnedHeader>,
}

/// A zero-copy response whose text and byte fields alias the engine's
/// internal buffer.  It is valid only until the next request or read cycle
/// on the same engine instance.
#[derive(Debug, PartialEq)]
pub struct UnsafeHttpResponse<'a> {
    pub status_code: u16,
    pub status_message: &'a str,
    pub headers: Vec<HttpHeaderView<'a>>,
    pub body: &'a [u8],
}

/// The UTF-8 bytes of an owned string.
pub open spec fn spec_string_bytes(s: String) -> Seq<u8> {
    encode_utf8(s@)
}

/// The key and value bytes of a sequence of borrowed header views, in order.
pub open spec fn spec_view_headers(headers: Seq<HttpHeaderView>) -> Seq<(Seq<u8>, Seq<u8>)> {
    headers.map_values(|h: HttpHeaderView| (h.key.spec_bytes(), h.value.spec_bytes()))
}

/// The key and value bytes of a sequence of owned headers, in order.
pub open spec fn spec_owned_headers(headers: Seq<HttpOwnedHeader>) -> Seq<(Seq<u8>, Seq<u8>)> {
    headers.map_values(|h: HttpOwnedHeader| (spec_string_bytes(h.key), spec_string_bytes(h.value)))
}

/// A response representation that can be assembled from the four parsed
/// parts of a response.  Its spec functions give the byte-level model of an
/// assembled value, so that the borrowed and the owned representation can be
/// compared field by field.
pub trait ParsableResponse<'a>: Sized {
    /// The status code of the assembled response.
    spec fn spec_status_code(&self) -> u16;

    /// The status message of the assembled response, as UTF-8 bytes.
    spec fn spec_status_message(&self) -> Seq<u8>;

    /// The headers of the assembled response, as key and value bytes.
    spec fn spec_headers(&self) -> Seq<(Seq<u8>, Seq<u8>)>;

    /// The body bytes of the assembled response.
    spec fn spec_body(&self) -> Seq<u8>;

    /// Assembles a response from parsed parts.  Assembly never fails, and
    /// the model of the assembled value is exactly the given parts.
    fn from_parts(
        status_code: u16,
        status_message: &'a str,
        headers: Vec<HttpHeaderView<'a>>,
        body: &'a [u8],
    ) -> (r: Result<Self, Error>)
        ensures
            r is Ok,
            r matches Ok(res) ==> {
                &&& res.spec_status_code() == status_code
                &&& res.spec_status_message() == status_message.spec_bytes()
                &&& res.spec_headers() == spec_view_headers(headers@)
                &&& res.spec_body() == body@
            },
    ;
}

impl<'a> ParsableResponse<'a> for SafeHttpResponse {
    open spec fn spec_status_code(&self) -> u16 {
        self.status_code
    }

    open spec fn spec_status_message(&self) -> Seq<u8> {
        spec_string_bytes(self.status_message)
    }

    open spec fn spec_headers(&self) -> Seq<(Seq<u8>, Seq<u8>)> {
        spec_owned_headers(self.headers@)
    }

    open spec fn spec_body(&self) -> Seq<u8> {
        self.body@
    }

    /// Assembles an owned response by deep-copying every part.
    fn from_parts(
        status_code: u16,
        status_message: &'a str,
        headers: Vec<HttpHeaderView<'a>>,
        body: &'a [u8],
    ) -> (r: Result<Self, Error>) {
        let mut owned: Vec<HttpOwnedHeader> = Vec::new();
        let mut i: usize = 0;
        while i < headers.len()
            invariant
                i <= headers.len(),
                owned@.len() == i,
                forall|j: int|
                    0 <= j < i ==> (#[trigger] owned@[j]).key@ == headers@[j].key@
                        && owned@[j].value@ == headers@[j].value@,
            decreases headers.len() - i,
        {
            let h = &headers[i];
            owned.push(HttpOwnedHeader { key: h.key.to_owned(), value: h.value.to_owned() });
            i = i + 1;
        }
        proof {
            assert(spec_owned_headers(owned@) =~= spec_view_headers(headers@)) by {
                assert forall|j: int| 0 <= j < headers@.len() implies spec_owned_headers(owned@)[j]
                    == spec_view_headers(headers@)[j] by {
                    assert(owned@[j].key@ == headers@[j].key@);
                    assert(owned@[j].value@ == headers@[j].value@);
                }
            }
        }
        Ok(
            SafeHttpResponse {
                status_code,
                status_message: status_message.to_owned(),
                body: vstd::slice::slice_to_vec(body),
                headers: owned,
            },
        )
    }
}

impl<'a> ParsableResponse<'a> for UnsafeHttpResponse<'a> {
    open spec fn spec_status_code(&self) -> u16 {
        self.status_code
    }

    open spec fn spec_status_message(&self) -> Seq<u8> {
        self.status_message.spec_bytes()
    }

    open spec fn spec_headers(&self) -> Seq<(Seq<u8>, Seq<u8>)> {
        spec_view_headers(self.headers@)
    }

    open spec fn spec_body(&self) -> Seq<u8> {
        self.body@
    }

    /// Assembles a borrowed response; every field aliases the given parts.
    fn from_parts(
        status_code: u16,
        status_message: &'a str,
        headers: Vec<HttpHeaderView<'a>>,
        body: &'a [u8],
    ) -> (r: Result<Self, Error>) {
        Ok(UnsafeHttpResponse { status_code, status_message, headers, body })
    }
}

/// The capability of an HTTP protocol engine: connecting and disconnecting
/// its transport, and performing a request in the zero-copy or the owned
/// flavour.
///
/// The contracts fix the propagation policy for failures: transport
/// failures pass through unchanged, and the only failure a protocol engine
/// adds itself is an HTTP parse failure.
pub trait HttpProtocol {
    /// Establishes the underlying transport connection.
    fn connect(&mut self, host: &str, port: u16) -> (r: Result<(), Error>)
        ensures
            r matches Err(e) ==> e matches Error::Transport(_),
    ;

    /// Releases the underlying transport connection.
    fn disconnect(&mut self) -> (r: Result<(), Error>)
        ensures
            r matches Err(e) ==> e matches Error::Transport(_),
    ;

    /// Performs one request cycle and returns a response view aliasing the
    /// engine's internal buffer, valid until the next call on the engine.
    fn perform_request_unsafe<'a, 'b>(&'a mut self, request: &'b HttpRequest) -> (r: Result<
        UnsafeHttpResponse<'a>,
        Error,
    >)
        ensures
            r matches Err(e) ==> (e matches Error::Transport(_) || e == Error::Http(
                HttpClientError::HttpParseFailure,
            )),
    ;

    /// Performs one request cycle and returns an independently owned
    /// response.
    fn perform_request_safe<'a>(&mut self, request: &'a HttpRequest) -> (r: Result<
        SafeHttpResponse,
        Error,
    >)
        ensures
            r matches Err(e) ==> (e matches Error::Transport(_) || e == Error::Http(
                HttpClientError::HttpParseFailure,
            )),
    ;
}

} // verus!
