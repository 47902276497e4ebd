//! The abstract reliable byte-stream transport that the protocol engine
//! drives.

use vstd::prelude::*;

use crate::error::{Error, TransportError};

verus! {

/// A reliable byte-stream connection: connect, write, read, close.
///
/// Two ghost functions model the connection.  `incoming_stream` is the
/// sequence of bytes the peer will still deliver, in order: every
/// successful read hands over a non-empty prefix of it and leaves the
/// rest, which is what ties a read loop's buffer to the wire and lets the
/// loop terminate.  `is_open` says whether the transport holds a live
/// connection: reads and writes on a closed one fail with the read and
/// write failure named here, and `close` is a safe no-op when already
/// closed.  A verifiable implementation overrides both; with the defaults
/// — an empty stream on a closed connection — no read could be shown
/// successful.
pub trait Transport {
    /// The bytes the peer will still deliver on the current connection,
    /// in order.
    open spec fn incoming_stream(&self) -> Seq<u8> {
        Seq::empty()
    }

    /// True while the transport holds a live connection.
    open spec fn is_open(&self) -> bool {
        false
    }

    /// Establishes a connection to the given host and port.  What the two
    /// parameters mean is the transport's own affair: a socket address, or
    /// a filesystem path with the port ignored.  A failure is always a
    /// transport error.
    fn connect(&mut self, host: &str, port: u16) -> (r: Result<(), Error>)
        ensures
            r is Ok ==> final(self).is_open(),
            r matches Err(e) ==> e matches Error::Transport(_),
    ;

    /// Writes bytes to the stream and returns how many were accepted.
    /// Writing neither consumes nor reorders what the peer will deliver,
    /// and fails with a write failure when the transport is not open.
    fn write(&mut self, data: &[u8]) -> (r: Result<usize, Error>)
        ensures
            final(self).incoming_stream() == old(self).incoming_stream(),
            final(self).is_open() == old(self).is_open(),
            r matches Ok(n) ==> n <= data@.len(),
            r matches Err(e) ==> e matches Error::Transport(_),
            !old(self).is_open() ==> r == Err::<usize, Error>(
                Error::Transport(TransportError::SocketWriteFailure),
            ),
    ;

    /// Reads at least one and at most `max` bytes from the stream,
    /// blocking until something is available: a successful read hands over
    /// a non-empty prefix of the incoming stream and leaves the rest.  It
    /// fails with a read failure when the transport is not open, and
    /// reports the end of the stream as a transport error, never as an
    /// empty read.
    fn read(&mut self, max: usize) -> (r: Result<Vec<u8>, Error>)
        requires
            max >= 1,
        ensures
            final(self).is_open() == old(self).is_open(),
            r matches Ok(chunk) ==> 1 <= chunk@.len() <= max && chunk@.len() <= old(
                self,
            ).incoming_stream().len() && chunk@ == old(self).incoming_stream().take(
                chunk@.len() as int,
            ) && final(self).incoming_stream() == old(self).incoming_stream().skip(
                chunk@.len() as int,
            ),
            r matches Err(e) ==> e matches Error::Transport(_) && final(self).incoming_stream()
                == old(self).incoming_stream(),
            !old(self).is_open() ==> r == Err::<Vec<u8>, Error>(
                Error::Transport(TransportError::SocketReadFailure),
            ),
    ;

    /// Releases the connection; calling it again is a safe no-op.  A
    /// failure is always a transport error.
    fn close(&mut self) -> (r: Result<(), Error>)
        ensures
            !final(self).is_open(),
            r matches Err(e) ==> e matches Error::Transport(_),
            !old(self).is_open() ==> r is Ok,
    ;
}

} // verus!
