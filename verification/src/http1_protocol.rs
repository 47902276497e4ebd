//! The HTTP/1.1 protocol engine: it serializes requests, reads responses
//! incrementally into a growable buffer, frames them by `Content-Length`
//! or by connection closure, and parses them into borrowed or owned
//! responses.

use vstd::prelude::*;
use vstd::string::StringSliceAdditionalSpecFns;

use crate::error::{Error, HttpClientError, TransportError};
use crate::http_protocol::{
    spec_owned_headers, spec_string_bytes, spec_view_headers, HttpProtocol, HttpRequest,
    ParsableResponse, SafeHttpResponse, UnsafeHttpResponse,
};
use crate::transport::Transport;
use crate::wire::{
    find_content_length, find_header_terminator, is_terminator_at, parse_response,
    serialize_request, spec_content_length, spec_parse_response,
};

verus! {

/// An HTTP/1.1 engine over one transport connection, owning one internal
/// read buffer.
///
/// Between read cycles the buffer holds the last response read;
/// `header_size` is the offset just past the `\r\n\r\n` terminator (zero
/// until one is found), and `content_length` is the body length announced
/// by the last response's headers, if any.
pub struct Http1Protocol<T: Transport> {
    transport: T,
    buffer: Vec<u8>,
    header_size: usize,
    content_length: Option<usize>,
}

impl<T: Transport> Http1Protocol<T> {
    /// The bytes of the internal read buffer.
    pub closed spec fn buf(&self) -> Seq<u8> {
        self.buffer@
    }

    /// The offset just past the header terminator, or zero when none has
    /// been found.
    pub closed spec fn hsize(&self) -> usize {
        self.header_size
    }

    /// The body length announced by the buffered response's headers.
    pub closed spec fn clen(&self) -> Option<usize> {
        self.content_length
    }

    /// The transport the engine drives.
    pub closed spec fn spec_transport(&self) -> T {
        self.transport
    }

    /// How the three framing fields relate after a read cycle: a found
    /// header terminator is the first one in the buffer and lies within
    /// it, and the announced body length is exactly what the buffered
    /// header block announces; while no terminator is found, no length is
    /// known either.
    pub open spec fn framing_wf(&self) -> bool {
        &&& self.hsize() != 0 ==> {
            &&& 4 <= self.hsize() <= self.buf().len()
            &&& is_terminator_at(self.buf(), self.hsize() - 4)
            &&& forall|j: int| 0 <= j < self.hsize() - 4 ==> !is_terminator_at(self.buf(), j)
            &&& self.clen() == spec_content_length(self.buf().take(self.hsize() as int))
        }
        &&& self.hsize() == 0 ==> self.clen() is None
    }

    /// A fresh engine over the given transport, with an empty buffer and
    /// nothing framed yet.
    pub fn new(transport: T) -> (r: Self)
        ensures
            r.buf() == Seq::<u8>::empty(),
            r.hsize() == 0,
            r.clen() is None,
            r.framing_wf(),
            r.spec_transport() == transport,
    {
        Self { transport, buffer: Vec::with_capacity(1024), header_size: 0, content_length: None }
    }

    /// The body length the last read cycle found in the headers.
    pub fn get_content_length_for_test(&self) -> (r: Option<usize>)
        ensures
            r == self.clen(),
    {
        self.content_length
    }

    /// The engine's internal read buffer, so that a caller can check
    /// whether a response aliases it.
    pub fn get_internal_buffer_ptr_for_test(&self) -> (r: &Vec<u8>)
        ensures
            r@ == self.buf(),
    {
        &self.buffer
    }

    /// The transport the engine drives.
    pub fn transport(&self) -> (r: &T)
        ensures
            *r == self.spec_transport(),
    {
        &self.transport
    }

    /// Reads one whole response from the transport into the internal
    /// buffer.
    ///
    /// The buffer and the framing fields are reset first, so nothing of an
    /// earlier cycle can reach the result: on every outcome the final
    /// buffer holds exactly the bytes the transport delivered during this
    /// call, in order — the consumed prefix of the incoming stream.  Each
    /// round reads a chunk, then — until one is found — scans for the
    /// header terminator and, on finding it, for a `Content-Length`
    /// header.  Reading stops once the announced body length is buffered,
    /// or when the peer closes the connection.  Closure before an
    /// announced length is satisfied is a parse failure (a truncated
    /// body); closure without an announced length ends the body
    /// (close-delimited framing).  A buffer with bytes but no terminator
    /// is a parse failure, and an empty one parses to nothing later.
    fn read_full_response(&mut self) -> (r: Result<(), Error>)
        ensures
            final(self).framing_wf(),
            old(self).spec_transport().incoming_stream() == final(self).buf()
                + final(self).spec_transport().incoming_stream(),
            final(self).spec_transport().is_open() == old(self).spec_transport().is_open(),
            r is Ok ==> (final(self).hsize() == 0 ==> final(self).buf().len() == 0),
            r is Ok ==> match final(self).clen() {
                Some(n) => final(self).buf().len() - final(self).hsize() >= n,
                None => true,
            },
            r matches Err(e) ==> (e matches Error::Transport(_) || e == Error::Http(
                HttpClientError::HttpParseFailure,
            )),
    {
        self.buffer.clear();
        self.header_size = 0;
        self.content_length = None;
        proof {
            assert(old(self).spec_transport().incoming_stream() =~= self.buf()
                + self.transport.incoming_stream());
        }

        loop
            invariant
                self.framing_wf(),
                self.hsize() == 0 ==> (forall|j: int| !is_terminator_at(self.buf(), j)),
                old(self).spec_transport().incoming_stream() == self.buf()
                    + self.transport.incoming_stream(),
                self.transport.is_open() == old(self).spec_transport().is_open(),
            ensures
                self.framing_wf(),
                self.hsize() == 0 ==> (forall|j: int| !is_terminator_at(self.buf(), j)),
                old(self).spec_transport().incoming_stream() == self.buf()
                    + self.transport.incoming_stream(),
                self.transport.is_open() == old(self).spec_transport().is_open(),
                match self.clen() {
                    Some(n) => self.buf().len() - self.hsize() >= n,
                    None => true,
                },
            decreases self.transport.incoming_stream().len(),
        {
            let ghost stream_head = self.transport.incoming_stream();
            let mut chunk = match self.transport.read(1024) {
                Ok(c) => c,
                Err(e) => {
                    if e == Error::Transport(TransportError::ConnectionClosed) {
                        match self.content_length {
                            Some(n) => {
                                if self.buffer.len() - self.header_size < n {
                                    return Err(Error::Http(HttpClientError::HttpParseFailure));
                                }
                            },
                            None => {},
                        }
                        break ;
                    }
                    return Err(e);
                },
            };
            let ghost prev = self.buffer@;
            let ghost prev_hs = self.header_size;
            let ghost chunk_len = chunk@.len();
            self.buffer.append(&mut chunk);
            proof {
                assert(old(self).spec_transport().incoming_stream() =~= self.buf()
                    + self.transport.incoming_stream()) by {
                    assert(stream_head =~= stream_head.take(chunk_len as int)
                        + stream_head.skip(chunk_len as int));
                }
                if prev_hs != 0 {
                    assert(self.buf().take(prev_hs as int) =~= prev.take(prev_hs as int));
                    assert(is_terminator_at(self.buf(), prev_hs - 4)) by {
                        assert(self.buf()[prev_hs - 4] == prev[prev_hs - 4]);
                        assert(self.buf()[prev_hs - 3] == prev[prev_hs - 3]);
                        assert(self.buf()[prev_hs - 2] == prev[prev_hs - 2]);
                        assert(self.buf()[prev_hs - 1] == prev[prev_hs - 1]);
                    }
                    assert forall|j: int| 0 <= j < prev_hs - 4 implies !is_terminator_at(
                        self.buf(),
                        j,
                    ) by {
                        assert(!is_terminator_at(prev, j));
                        assert(self.buf()[j] == prev[j]);
                        assert(self.buf()[j + 1] == prev[j + 1]);
                        assert(self.buf()[j + 2] == prev[j + 2]);
                        assert(self.buf()[j + 3] == prev[j + 3]);
                    }
                    assert(self.framing_wf());
                }
            }

            if self.header_size == 0 {
                let total = self.buffer.len();
                match find_header_terminator(self.buffer.as_slice()) {
                    Some(pos) => {
                        proof {
                            assert(pos + 4 <= total);
                        }
                        self.header_size = pos + 4;
                        let block = vstd::slice::slice_subrange(
                            self.buffer.as_slice(),
                            0,
                            self.header_size,
                        );
                        proof {
                            assert(block@ =~= self.buf().take(self.hsize() as int));
                        }
                        self.content_length = find_content_length(block);
                        proof {
                            assert(self.framing_wf());
                        }
                    },
                    None => {},
                }
            }

            if let Some(n) = self.content_length {
                proof {
                    assert(self.hsize() != 0 && self.hsize() <= self.buf().len());
                }
                if self.buffer.len() - self.header_size >= n {
                    break ;
                }
            }
        }

        if self.header_size == 0 && self.buffer.len() > 0 {
            return Err(Error::Http(HttpClientError::HttpParseFailure));
        }

        Ok(())
    }

    /// Parses the buffered response into a zero-copy view of the buffer.
    /// Fails with an HTTP parse failure when no header terminator was
    /// found or the buffered bytes do not parse.
    fn parse_unsafe_response<'a>(&'a self) -> (r: Result<UnsafeHttpResponse<'a>, Error>)
        ensures
            r is Ok <==> spec_parse_response(self.buf(), self.hsize(), self.clen()) is Some,
            r matches Ok(res) ==> spec_parse_response(self.buf(), self.hsize(), self.clen())
                == Some(
                (
                    res.spec_status_code(),
                    res.spec_status_message(),
                    res.spec_headers(),
                    res.spec_body(),
                ),
            ),
            r matches Err(e) ==> e == Error::Http(HttpClientError::HttpParseFailure),
    {
        let (code, message, headers, body) = match parse_response(
            self.buffer.as_slice(),
            self.header_size,
            self.content_length,
        ) {
            Ok(parts) => parts,
            Err(e) => {
                return Err(e);
            },
        };
        match UnsafeHttpResponse::from_parts(code, message, headers, body) {
            Ok(res) => Ok(res),
            Err(e) => Err(e),
        }
    }
}

/// The owned (safe) and the zero-copy (unsafe) result of parsing the same
/// buffered wire bytes agree field by field: same status code, same status
/// message bytes, same header keys and values, and the same body bytes —
/// the safe copy merely occupies its own memory.
pub proof fn lemma_safe_matches_unsafe<'a>(
    safe: SafeHttpResponse,
    raw: UnsafeHttpResponse<'a>,
    buffer: Seq<u8>,
    header_size: usize,
    content_length: Option<usize>,
)
    requires
        spec_parse_response(buffer, header_size, content_length) == Some(
            (
                safe.spec_status_code(),
                safe.spec_status_message(),
                safe.spec_headers(),
                safe.spec_body(),
            ),
        ),
        spec_parse_response(buffer, header_size, content_length) == Some(
            (raw.spec_status_code(), raw.spec_status_message(), raw.spec_headers(), raw.spec_body()),
        ),
    ensures
        safe.status_code == raw.status_code,
        spec_string_bytes(safe.status_message) == raw.status_message.spec_bytes(),
        spec_owned_headers(safe.headers@) == spec_view_headers(raw.headers@),
        safe.body@ == raw.body@,
{
}

impl<T: Transport + Default> Default for Http1Protocol<T> {
    /// A fresh engine over a default-constructed transport.
    fn default() -> (r: Self)
        ensures
            r.buf() == Seq::<u8>::empty(),
            r.hsize() == 0,
            r.clen() is None,
            r.framing_wf(),
    {
        Self {
            transport: T::default(),
            buffer: Vec::new(),
            header_size: 0,
            content_length: None,
        }
    }
}

impl<T: Transport> HttpProtocol for Http1Protocol<T> {
    /// Connects the underlying transport; the engine's buffer and framing
    /// state are untouched.
    fn connect(&mut self, host: &str, port: u16) -> (r: Result<(), Error>)
        ensures
            final(self).buf() == old(self).buf(),
            final(self).hsize() == old(self).hsize(),
            final(self).clen() == old(self).clen(),
    {
        self.transport.connect(host, port)
    }

    /// Closes the underlying transport; the engine's buffer and framing
    /// state are untouched.
    fn disconnect(&mut self) -> (r: Result<(), Error>)
        ensures
            final(self).buf() == old(self).buf(),
            final(self).hsize() == old(self).hsize(),
            final(self).clen() == old(self).clen(),
    {
        self.transport.close()
    }

    /// Serializes the request, writes it to the transport, reads one whole
    /// response, and parses it as a zero-copy view of the internal buffer.
    ///
    /// On success the buffer holds exactly the bytes the transport
    /// delivered during this cycle — the consumed prefix of the incoming
    /// stream — and the returned view is exactly the parse of that final
    /// buffer state, whose framing fields satisfy `framing_wf`: the header
    /// terminator found is the first in the buffer, and the announced body
    /// length is what the buffered headers announce.  On a transport never
    /// connected, the write fails before anything else happens.
    fn perform_request_unsafe<'a, 'b>(&'a mut self, request: &'b HttpRequest) -> (r: Result<
        UnsafeHttpResponse<'a>,
        Error,
    >)
        ensures
            !old(self).spec_transport().is_open() ==> r == Err::<UnsafeHttpResponse<'a>, Error>(
                Error::Transport(TransportError::SocketWriteFailure),
            ),
            r is Ok ==> final(self).framing_wf(),
            r is Ok ==> old(self).spec_transport().incoming_stream() == final(self).buf()
                + final(self).spec_transport().incoming_stream(),
            r is Ok ==> final(self).spec_transport().is_open() == old(
                self,
            ).spec_transport().is_open(),
            r matches Ok(res) ==> spec_parse_response(
                final(self).buf(),
                final(self).hsize(),
                final(self).clen(),
            ) == Some(
                (
                    res.spec_status_code(),
                    res.spec_status_message(),
                    res.spec_headers(),
                    res.spec_body(),
                ),
            ),
    {
        let request_bytes = serialize_request(request);
        match self.transport.write(request_bytes.as_slice()) {
            Ok(_) => {},
            Err(e) => {
                return Err(e);
            },
        }
        match self.read_full_response() {
            Ok(()) => {},
            Err(e) => {
                return Err(e);
            },
        }
        self.parse_unsafe_response()
    }

    /// Performs the same cycle as `perform_request_unsafe`, then deep-
    /// copies every field of the parsed response into independently owned
    /// memory: the owned result has the same status, message, headers,
    /// and body as the zero-copy view of the final buffer state.
    fn perform_request_safe<'a>(&mut self, request: &'a HttpRequest) -> (r: Result<
        SafeHttpResponse,
        Error,
    >)
        ensures
            !old(self).spec_transport().is_open() ==> r == Err::<SafeHttpResponse, Error>(
                Error::Transport(TransportError::SocketWriteFailure),
            ),
            r is Ok ==> final(self).framing_wf(),
            r is Ok ==> old(self).spec_transport().incoming_stream() == final(self).buf()
                + final(self).spec_transport().incoming_stream(),
            r is Ok ==> final(self).spec_transport().is_open() == old(
                self,
            ).spec_transport().is_open(),
            r matches Ok(res) ==> spec_parse_response(
                final(self).buf(),
                final(self).hsize(),
                final(self).clen(),
            ) == Some(
                (
                    res.spec_status_code(),
                    res.spec_status_message(),
                    res.spec_headers(),
                    res.spec_body(),
                ),
            ),
    {
        let raw = match self.perform_request_unsafe(request) {
            Ok(raw) => raw,
            Err(e) => {
                return Err(e);
            },
        };
        match SafeHttpResponse::from_parts(
            raw.status_code,
            raw.status_message,
            raw.headers,
            raw.body,
        ) {
            Ok(res) => Ok(res),
            Err(e) => Err(e),
        }
    }
}

} // verus!
