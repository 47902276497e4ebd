//! The in-memory transport's own contract: connect, chunked reads, the
//! closed-stream error, and idempotent close.

use httprust::error::{Error, TransportError};
use httprust::mem_transport::MemTransport;
use httprust::transport::Transport;

#[test]
fn construction_succeeds() {
    let transport = MemTransport::new();
    assert!(transport.written().is_empty());
}

#[test]
fn connect_succeeds() {
    let mut transport = MemTransport::new();
    assert!(transport.connect("anywhere", 80).is_ok());
}

#[test]
fn write_succeeds() {
    let mut transport = MemTransport::new();
    transport.connect("peer", 0).unwrap();
    let written = transport.write(b"hello server").unwrap();
    assert_eq!(written, 12);
    assert_eq!(transport.written(), &b"hello server".to_vec());
}

#[test]
fn write_fails_when_not_connected() {
    let mut transport = MemTransport::new();
    let result = transport.write(b"this should fail");
    assert_eq!(
        result.unwrap_err(),
        Error::Transport(TransportError::SocketWriteFailure)
    );
}

#[test]
fn read_serves_scripted_input_in_chunks() {
    let mut transport = MemTransport::with_input(b"hello client".to_vec(), 5);
    transport.connect("peer", 0).unwrap();
    assert_eq!(transport.read(1024).unwrap(), b"hello".to_vec());
    assert_eq!(transport.read(1024).unwrap(), b" clie".to_vec());
    assert_eq!(transport.read(1024).unwrap(), b"nt".to_vec());
}

#[test]
fn read_respects_the_callers_limit() {
    let mut transport = MemTransport::with_input(b"abcdef".to_vec(), 1024);
    transport.connect("peer", 0).unwrap();
    assert_eq!(transport.read(2).unwrap(), b"ab".to_vec());
    assert_eq!(transport.read(1024).unwrap(), b"cdef".to_vec());
}

#[test]
fn read_fails_when_not_connected() {
    let mut transport = MemTransport::with_input(b"data".to_vec(), 1024);
    let result = transport.read(16);
    assert_eq!(
        result.unwrap_err(),
        Error::Transport(TransportError::SocketReadFailure)
    );
}

#[test]
fn read_fails_on_exhausted_stream() {
    let mut transport = MemTransport::with_input(b"x".to_vec(), 1024);
    transport.connect("peer", 0).unwrap();
    assert_eq!(transport.read(16).unwrap(), b"x".to_vec());
    let result = transport.read(16);
    assert_eq!(
        result.unwrap_err(),
        Error::Transport(TransportError::ConnectionClosed)
    );
}

#[test]
fn close_succeeds() {
    let mut transport = MemTransport::new();
    transport.connect("peer", 0).unwrap();
    assert!(transport.close().is_ok());
}

#[test]
fn close_is_idempotent() {
    let mut transport = MemTransport::new();
    transport.connect("peer", 0).unwrap();
    assert!(transport.close().is_ok());
    assert!(transport.close().is_ok());
}
