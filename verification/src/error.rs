//! The closed taxonomy of transport and protocol failures, with the
//! deterministic mapping from low-level I/O failure causes.

use vstd::prelude::*;

verus! {

/// A failure of the byte-stream transport layer.
#[derive(Debug, PartialEq, Eq, Structural, Clone, Copy)]
pub enum TransportError {
    DnsFailure,
    SocketCreateFailure,
    SocketConnectFailure,
    SocketWriteFailure,
    SocketReadFailure,
    ConnectionClosed,
    SocketCloseFailure,
    InitFailure,
}

/// A failure of the HTTP client protocol layer.
#[derive(Debug, PartialEq, Eq, Structural, Clone, Copy)]
pub enum HttpClientError {
    UrlParseFailure,
    HttpParseFailure,
    InvalidRequest,
    InitFailure,
}

/// Any failure surfaced by the client: either a transport failure or a
/// protocol failure.
#[derive(Debug, PartialEq, Eq, Structural, Clone, Copy)]
pub enum Error {
    Transport(TransportError),
    Http(HttpClientError),
}

/// The cause of a low-level I/O failure, as far as the error model cares.
///
/// An unverified transport implementation classifies the I/O errors of its
/// platform into these causes and hands them to [`Error::from_io_failure`],
/// which performs the deterministic mapping to a transport error.
#[derive(Debug, PartialEq, Eq, Structural, Clone, Copy)]
pub enum IoFailureKind {
    NotFound,
    ConnectionRefused,
    ConnectionReset,
    BrokenPipe,
    NameResolution,
    Other,
}

/// The transport error that a given I/O failure cause maps to.
pub open spec fn spec_transport_error_of_io(kind: IoFailureKind) -> TransportError {
    match kind {
        IoFailureKind::NotFound => TransportError::DnsFailure,
        IoFailureKind::ConnectionRefused => TransportError::SocketConnectFailure,
        IoFailureKind::ConnectionReset => TransportError::ConnectionClosed,
        IoFailureKind::BrokenPipe => TransportError::SocketWriteFailure,
        IoFailureKind::NameResolution => TransportError::DnsFailure,
        IoFailureKind::Other => TransportError::SocketReadFailure,
    }
}

impl Error {
    /// Maps a low-level I/O failure cause to the transport error it stands
    /// for: address-resolution failures to a DNS failure, a refused
    /// connection to a connect failure, a reset to a closed connection, a
    /// broken pipe to a write failure, and anything else to a read failure.
    pub fn from_io_failure(kind: IoFailureKind) -> (r: Error)
        ensures
            r == Error::Transport(spec_transport_error_of_io(kind)),
    {
        let te = match kind {
            IoFailureKind::NotFound => TransportError::DnsFailure,
            IoFailureKind::ConnectionRefused => TransportError::SocketConnectFailure,
            IoFailureKind::ConnectionReset => TransportError::ConnectionClosed,
            IoFailureKind::BrokenPipe => TransportError::SocketWriteFailure,
            IoFailureKind::NameResolution => TransportError::DnsFailure,
            IoFailureKind::Other => TransportError::SocketReadFailure,
        };
        Error::Transport(te)
    }
}

impl TransportError {
    /// The name of this error, for diagnostics.
    pub fn describe(&self) -> (r: &'static str)
        ensures
            r@ == match *self {
                TransportError::DnsFailure => "DnsFailure"@,
                TransportError::SocketCreateFailure => "SocketCreateFailure"@,
                TransportError::SocketConnectFailure => "SocketConnectFailure"@,
                TransportError::SocketWriteFailure => "SocketWriteFailure"@,
                TransportError::SocketReadFailure => "SocketReadFailure"@,
                TransportError::ConnectionClosed => "ConnectionClosed"@,
                TransportError::SocketCloseFailure => "SocketCloseFailure"@,
                TransportError::InitFailure => "InitFailure"@,
            },
    {
        match *self {
            TransportError::DnsFailure => "DnsFailure",
            TransportError::SocketCreateFailure => "SocketCreateFailure",
            TransportError::SocketConnectFailure => "SocketConnectFailure",
            TransportError::SocketWriteFailure => "SocketWriteFailure",
            TransportError::SocketReadFailure => "SocketReadFailure",
            TransportError::ConnectionClosed => "ConnectionClosed",
            TransportError::SocketCloseFailure => "SocketCloseFailure",
            TransportError::InitFailure => "InitFailure",
        }
    }
}

impl HttpClientError {
    /// The name of this error, for diagnostics.
    pub fn describe(&self) -> (r: &'static str)
        ensures
            r@ == match *self {
                HttpClientError::UrlParseFailure => "UrlParseFailure"@,
                HttpClientError::HttpParseFailure => "HttpParseFailure"@,
                HttpClientError::InvalidRequest => "InvalidRequest"@,
                HttpClientError::InitFailure => "InitFailure"@,
            },
    {
        match *self {
            HttpClientError::UrlParseFailure => "UrlParseFailure",
            HttpClientError::HttpParseFailure => "HttpParseFailure",
            HttpClientError::InvalidRequest => "InvalidRequest",
            HttpClientError::InitFailure => "InitFailure",
        }
    }
}

impl Error {
    /// The name of the underlying error, for diagnostics.
    pub fn describe(&self) -> (r: &'static str)
        ensures
            r@ == match *self {
                Error::Transport(e) => match e {
                    TransportError::DnsFailure => "DnsFailure"@,
                    TransportError::SocketCreateFailure => "SocketCreateFailure"@,
                    TransportError::SocketConnectFailure => "SocketConnectFailure"@,
                    TransportError::SocketWriteFailure => "SocketWriteFailure"@,
                    TransportError::SocketReadFailure => "SocketReadFailure"@,
                    TransportError::ConnectionClosed => "ConnectionClosed"@,
                    TransportError::SocketCloseFailure => "SocketCloseFailure"@,
                    TransportError::InitFailure => "InitFailure"@,
                },
                Error::Http(e) => match e {
                    HttpClientError::UrlParseFailure => "UrlParseFailure"@,
                    HttpClientError::HttpParseFailure => "HttpParseFailure"@,
                    HttpClientError::InvalidRequest => "InvalidRequest"@,
                    HttpClientError::InitFailure => "InitFailure"@,
                },
            },
    {
        match *self {
            Error::Transport(e) => e.describe(),
            Error::Http(e) => e.describe(),
        }
    }
}

} // verus!
