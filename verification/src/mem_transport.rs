//! An in-memory transport: a fake byte stream over a scripted input,
//! recording everything written to it.
//!
//! It implements the same [`Transport`] capability as a socket-backed
//! transport would, which makes the whole engine runnable — and testable —
//! without any I/O: the scripted input plays the peer's side of the
//! conversation, and partial reads can be forced with a chunk limit.

use vstd::prelude::*;

use crate::error::{Error, TransportError};
use crate::transport::Transport;

verus! {

/// A transport whose peer is a byte script held in memory.
///
/// While connected, `read` serves successive chunks of the scripted input
/// — at most `chunk_limit` bytes at a time — and reports a closed
/// connection once the script is exhausted; `write` appends to a record
/// of outgoing bytes.
#[derive(Debug)]
pub struct MemTransport {
    connected: bool,
    input: Vec<u8>,
    read_pos: usize,
    written: Vec<u8>,
    chunk_limit: usize,
}

impl MemTransport {
    /// True of every value of the type: the read position never passes the
    /// end of the scripted input, and reads serve at least one byte.
    pub closed spec fn wf(&self) -> bool {
        self.read_pos <= self.input@.len() && self.chunk_limit >= 1
    }

    /// The bytes written to the transport so far.
    pub closed spec fn written_bytes(&self) -> Seq<u8> {
        self.written@
    }

    /// A disconnected transport with an empty script.
    pub fn new() -> (r: MemTransport)
        ensures
            r.wf(),
            !r.is_open(),
            r.incoming_stream() == Seq::<u8>::empty(),
            r.written_bytes() == Seq::<u8>::empty(),
    {
        let r = MemTransport {
            connected: false,
            input: Vec::new(),
            read_pos: 0,
            written: Vec::new(),
            chunk_limit: 1024,
        };
        proof {
            assert(r.incoming_stream() =~= Seq::<u8>::empty());
        }
        r
    }

    /// A disconnected transport whose peer will deliver the given bytes,
    /// at most `chunk_limit` bytes per read.  A chunk limit of zero is
    /// raised to one.
    pub fn with_input(input: Vec<u8>, chunk_limit: usize) -> (r: MemTransport)
        ensures
            r.wf(),
            !r.is_open(),
            r.incoming_stream() == input@,
            r.written_bytes() == Seq::<u8>::empty(),
    {
        let limit: usize = if chunk_limit == 0 {
            1
        } else {
            chunk_limit
        };
        let ghost gin = input@;
        let r = MemTransport {
            connected: false,
            input,
            read_pos: 0,
            written: Vec::new(),
            chunk_limit: limit,
        };
        proof {
            assert(r.incoming_stream() =~= gin);
        }
        r
    }

    /// The bytes written to the transport so far.
    pub fn written(&self) -> (r: &Vec<u8>)
        ensures
            r@ == self.written_bytes(),
    {
        &self.written
    }
}

impl Default for MemTransport {
    /// A disconnected transport with an empty script.
    fn default() -> (r: MemTransport)
        ensures
            r.wf(),
            !r.is_open(),
            r.incoming_stream() == Seq::<u8>::empty(),
            r.written_bytes() == Seq::<u8>::empty(),
    {
        MemTransport::new()
    }
}

impl Transport for MemTransport {
    /// The unread part of the scripted input is what the peer will still
    /// deliver.
    closed spec fn incoming_stream(&self) -> Seq<u8> {
        self.input@.subrange(self.read_pos as int, self.input@.len() as int)
    }

    /// Connected until closed; the script needs no handshake.
    closed spec fn is_open(&self) -> bool {
        self.connected
    }

    /// Marks the transport connected; the host and port are ignored, as
    /// the peer is the script.
    fn connect(&mut self, host: &str, port: u16) -> (r: Result<(), Error>)
        ensures
            r is Ok,
            final(self).wf() == old(self).wf(),
            final(self).incoming_stream() == old(self).incoming_stream(),
            final(self).written_bytes() == old(self).written_bytes(),
    {
        self.connected = true;
        Ok(())
    }

    /// Records the written bytes.  Fails with a write failure when the
    /// transport is not connected.
    fn write(&mut self, data: &[u8]) -> (r: Result<usize, Error>)
        ensures
            final(self).wf() == old(self).wf(),
            r matches Ok(n) ==> n == data@.len() && old(self).is_open()
                && final(self).written_bytes() == old(self).written_bytes() + data@,
            r is Err ==> *final(self) == *old(self),
    {
        if !self.connected {
            return Err(Error::Transport(TransportError::SocketWriteFailure));
        }
        let mut tmp = vstd::slice::slice_to_vec(data);
        self.written.append(&mut tmp);
        Ok(data.len())
    }

    /// Serves the next chunk of the scripted input: at least one byte, at
    /// most `max` bytes and at most the chunk limit.  Fails with a read
    /// failure when not connected, and with a closed connection once the
    /// script is exhausted.
    fn read(&mut self, max: usize) -> (r: Result<Vec<u8>, Error>)
        ensures
            final(self).wf() == old(self).wf(),
            final(self).written_bytes() == old(self).written_bytes(),
            r matches Err(e) ==> *final(self) == *old(self) && (e == Error::Transport(
                TransportError::SocketReadFailure,
            ) || e == Error::Transport(TransportError::ConnectionClosed)),
            r is Err ==> !old(self).is_open() || old(self).incoming_stream().len() == 0 || !old(
                self,
            ).wf(),
    {
        if !self.connected {
            return Err(Error::Transport(TransportError::SocketReadFailure));
        }
        if self.read_pos >= self.input.len() {
            return Err(Error::Transport(TransportError::ConnectionClosed));
        }
        let remaining = self.input.len() - self.read_pos;
        let mut take: usize = if max < remaining {
            max
        } else {
            remaining
        };
        if self.chunk_limit < take {
            take = self.chunk_limit;
        }
        if take == 0 {
            take = 1;
        }
        let chunk = vstd::slice::slice_subrange(
            self.input.as_slice(),
            self.read_pos,
            self.read_pos + take,
        );
        let out = vstd::slice::slice_to_vec(chunk);
        self.read_pos = self.read_pos + take;
        proof {
            assert(out@ =~= old(self).incoming_stream().take(take as int));
            assert(final(self).incoming_stream() =~= old(self).incoming_stream().skip(
                take as int,
            ));
        }
        Ok(out)
    }

    /// Marks the transport closed; closing again is a no-op.
    fn close(&mut self) -> (r: Result<(), Error>)
        ensures
            r is Ok,
            final(self).wf() == old(self).wf(),
            final(self).incoming_stream() == old(self).incoming_stream(),
            final(self).written_bytes() == old(self).written_bytes(),
    {
        self.connected = false;
        Ok(())
    }
}

} // verus!
