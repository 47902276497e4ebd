//! The client facade: it enforces request-shape invariants — a `GET`
//! carries no body, a `POST` carries a body and a `Content-Length` header —
//! before any I/O happens, and then drives a protocol engine.

use vstd::prelude::*;
use vstd::string::StringSliceAdditionalSpecFns;

use crate::error::{Error, HttpClientError};
use crate::http_protocol::{
    HttpMethod, HttpProtocol, HttpRequest, SafeHttpResponse, UnsafeHttpResponse,
};
use crate::wire::{is_cl_key, key_is_cl};

verus! {

/// An HTTP client over a protocol engine.
pub struct HttpClient<P: HttpProtocol> {
    protocol: P,
}

/// True when a request may be sent as a `GET`: its body is empty.
pub open spec fn spec_get_allowed(req: HttpRequest) -> bool {
    req.body@.len() == 0
}

/// True when a request may be sent as a `POST`: its body is non-empty and
/// some header key matches `Content-Length` case-insensitively.
pub open spec fn spec_post_allowed(req: HttpRequest) -> bool {
    &&& req.body@.len() > 0
    &&& exists|i: int|
        0 <= i < req.headers@.len() && is_cl_key((#[trigger] req.headers@[i]).key.spec_bytes())
}

/// True when the second request is the first with its method replaced.
pub open spec fn spec_method_forced(before: HttpRequest, after: HttpRequest, m: HttpMethod) -> bool {
    &&& after.method == m
    &&& after.path == before.path
    &&& after.body == before.body
    &&& after.headers@ == before.headers@
}

impl<P: HttpProtocol + Default> HttpClient<P> {
    /// A client over a default-constructed protocol engine.
    pub fn new() -> (r: Self) {
        Self { protocol: P::default() }
    }
}

impl<P: HttpProtocol> HttpClient<P> {
    /// The protocol engine the client drives.
    pub closed spec fn spec_protocol(&self) -> P {
        self.protocol
    }

    /// A client over the given protocol engine.
    pub fn with_protocol(protocol: P) -> (r: Self)
        ensures
            r.spec_protocol() == protocol,
    {
        Self { protocol }
    }

    /// Connects the engine's transport.  A failure is always a transport
    /// error.
    pub fn connect(&mut self, host: &str, port: u16) -> (r: Result<(), Error>)
        ensures
            r matches Err(e) ==> e matches Error::Transport(_),
    {
        self.protocol.connect(host, port)
    }

    /// Disconnects the engine's transport.  A failure is always a
    /// transport error.
    pub fn disconnect(&mut self) -> (r: Result<(), Error>)
        ensures
            r matches Err(e) ==> e matches Error::Transport(_),
    {
        self.protocol.disconnect()
    }

    /// Performs a `GET` returning an owned response.  A request with a
    /// non-empty body is rejected as invalid before any I/O; otherwise the
    /// method is forced to `GET` and the engine performs the cycle.
    pub fn get_safe(&mut self, request: &mut HttpRequest) -> (r: Result<SafeHttpResponse, Error>)
        ensures
            !spec_get_allowed(*old(request)) ==> r == Err::<SafeHttpResponse, Error>(
                Error::Http(HttpClientError::InvalidRequest),
            ) && *final(request) == *old(request) && final(self).spec_protocol() == old(
                self,
            ).spec_protocol(),
            spec_get_allowed(*old(request)) ==> spec_method_forced(
                *old(request),
                *final(request),
                HttpMethod::Get,
            ),
            r matches Err(e) ==> (e matches Error::Transport(_) || e == Error::Http(
                HttpClientError::HttpParseFailure,
            ) || e == Error::Http(HttpClientError::InvalidRequest)),
            spec_get_allowed(*old(request)) ==> (r matches Err(e) ==> (e matches Error::Transport(
                _,
            ) || e == Error::Http(HttpClientError::HttpParseFailure))),
    {
        if request.body.len() > 0 {
            return Err(Error::Http(HttpClientError::InvalidRequest));
        }
        request.method = HttpMethod::Get;
        self.protocol.perform_request_safe(request)
    }

    /// Performs a `GET` returning a zero-copy response view into the
    /// engine's buffer, with the same validation as `get_safe`.
    pub fn get_unsafe<'a>(&'a mut self, request: &'a mut HttpRequest) -> (r: Result<
        UnsafeHttpResponse<'a>,
        Error,
    >)
        ensures
            !spec_get_allowed(*old(request)) ==> r == Err::<UnsafeHttpResponse<'a>, Error>(
                Error::Http(HttpClientError::InvalidRequest),
            ) && *final(request) == *old(request) && final(self).spec_protocol() == old(
                self,
            ).spec_protocol(),
            spec_get_allowed(*old(request)) ==> spec_method_forced(
                *old(request),
                *final(request),
                HttpMethod::Get,
            ),
            r matches Err(e) ==> (e matches Error::Transport(_) || e == Error::Http(
                HttpClientError::HttpParseFailure,
            ) || e == Error::Http(HttpClientError::InvalidRequest)),
            spec_get_allowed(*old(request)) ==> (r matches Err(e) ==> (e matches Error::Transport(
                _,
            ) || e == Error::Http(HttpClientError::HttpParseFailure))),
    {
        if request.body.len() > 0 {
            return Err(Error::Http(HttpClientError::InvalidRequest));
        }
        request.method = HttpMethod::Get;
        self.protocol.perform_request_unsafe(request)
    }

    /// Performs a `POST` returning an owned response.  A request with an
    /// empty body, or without a header key matching `Content-Length`
    /// case-insensitively, is rejected as invalid before any I/O;
    /// otherwise the method is forced to `POST` and the engine performs
    /// the cycle.
    pub fn post_safe(&mut self, request: &mut HttpRequest) -> (r: Result<SafeHttpResponse, Error>)
        ensures
            !spec_post_allowed(*old(request)) ==> r == Err::<SafeHttpResponse, Error>(
                Error::Http(HttpClientError::InvalidRequest),
            ) && *final(request) == *old(request) && final(self).spec_protocol() == old(
                self,
            ).spec_protocol(),
            spec_post_allowed(*old(request)) ==> spec_method_forced(
                *old(request),
                *final(request),
                HttpMethod::Post,
            ),
            r matches Err(e) ==> (e matches Error::Transport(_) || e == Error::Http(
                HttpClientError::HttpParseFailure,
            ) || e == Error::Http(HttpClientError::InvalidRequest)),
            spec_post_allowed(*old(request)) ==> (r matches Err(e) ==> (e matches Error::Transport(
                _,
            ) || e == Error::Http(HttpClientError::HttpParseFailure))),
    {
        match self.validate_post_request(request) {
            Ok(()) => {},
            Err(e) => {
                return Err(e);
            },
        }
        request.method = HttpMethod::Post;
        self.protocol.perform_request_safe(request)
    }

    /// Performs a `POST` returning a zero-copy response view into the
    /// engine's buffer, with the same validation as `post_safe`.
    pub fn post_unsafe<'a>(&'a mut self, request: &'a mut HttpRequest) -> (r: Result<
        UnsafeHttpResponse<'a>,
        Error,
    >)
        ensures
            !spec_post_allowed(*old(request)) ==> r == Err::<UnsafeHttpResponse<'a>, Error>(
                Error::Http(HttpClientError::InvalidRequest),
            ) && *final(request) == *old(request) && final(self).spec_protocol() == old(
                self,
            ).spec_protocol(),
            spec_post_allowed(*old(request)) ==> spec_method_forced(
                *old(request),
                *final(request),
                HttpMethod::Post,
            ),
            r matches Err(e) ==> (e matches Error::Transport(_) || e == Error::Http(
                HttpClientError::HttpParseFailure,
            ) || e == Error::Http(HttpClientError::InvalidRequest)),
            spec_post_allowed(*old(request)) ==> (r matches Err(e) ==> (e matches Error::Transport(
                _,
            ) || e == Error::Http(HttpClientError::HttpParseFailure))),
    {
        match self.validate_post_request(request) {
            Ok(()) => {},
            Err(e) => {
                return Err(e);
            },
        }
        request.method = HttpMethod::Post;
        self.protocol.perform_request_unsafe(request)
    }

    /// Checks that a request may be sent as a `POST`: the body is
    /// non-empty and some header key matches `Content-Length`
    /// case-insensitively.
    fn validate_post_request(&self, request: &HttpRequest) -> (r: Result<(), Error>)
        ensures
            r is Ok <==> spec_post_allowed(*request),
            r matches Err(e) ==> e == Error::Http(HttpClientError::InvalidRequest),
    {
        if request.body.len() == 0 {
            return Err(Error::Http(HttpClientError::InvalidRequest));
        }
        let n = request.headers.len();
        let mut i: usize = 0;
        while i < n
            invariant
                0 <= i <= n,
                n == request.headers@.len(),
                request.body@.len() > 0,
                forall|j: int|
                    0 <= j < i ==> !is_cl_key((#[trigger] request.headers@[j]).key.spec_bytes()),
            decreases n - i,
        {
            if key_is_cl(request.headers[i].key) {
                proof {
                    assert(0 <= i < request.headers@.len() && is_cl_key(
                        request.headers@[i as int].key.spec_bytes(),
                    ));
                }
                return Ok(());
            }
            i = i + 1;
        }
        Err(Error::Http(HttpClientError::InvalidRequest))
    }
}

} // verus!
