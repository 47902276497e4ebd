//! A minimal verified HTTP/1.1 client protocol engine over a pluggable
//! byte-stream transport.
//!
//! The core of the crate is the protocol engine: request serialization,
//! incremental buffered response reading, header and status-line parsing,
//! and body-length determination (`Content-Length` or connection-close
//! framing).  Every function of the engine carries a contract relating its
//! result to the byte-level specification of the wire format.

pub mod checksum;
pub mod error;
pub mod http1_protocol;
pub mod http_protocol;
pub mod httprust;
pub mod mem_transport;
pub mod transport;
pub mod wire;

use vstd::prelude::*;

verus! {

pub use crate::error::{Error, HttpClientError, IoFailureKind, TransportError};
pub use crate::http1_protocol::Http1Protocol;
pub use crate::http_protocol::{
    HttpHeaderView, HttpMethod, HttpOwnedHeader, HttpProtocol, HttpRequest, ParsableResponse,
    SafeHttpResponse, UnsafeHttpResponse,
};
pub use crate::httprust::HttpClient;
pub use crate::mem_transport::MemTransport;
pub use crate::transport::Transport;

} // verus!
