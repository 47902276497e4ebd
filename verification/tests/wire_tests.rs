//! Request serialization, error mapping, and checksum behaviour.

use httprust::checksum::xor_checksum;
use httprust::error::{Error, HttpClientError, IoFailureKind, TransportError};
use httprust::http_protocol::{HttpHeaderView, HttpMethod, HttpRequest};
use httprust::wire::serialize_request;

#[test]
fn correctly_serializes_get_request() {
    let request = HttpRequest {
        method: HttpMethod::Get,
        path: "/test",
        body: &[],
        headers: vec![HttpHeaderView { key: "Host", value: "example.com" }],
    };
    let bytes = serialize_request(&request);
    assert_eq!(bytes, b"GET /test HTTP/1.1\r\nHost: example.com\r\n\r\n".to_vec());
}

#[test]
fn correctly_serializes_post_request() {
    let request = HttpRequest {
        method: HttpMethod::Post,
        path: "/api/submit",
        body: b"key=value",
        headers: vec![
            HttpHeaderView { key: "Host", value: "test-server" },
            HttpHeaderView { key: "Content-Length", value: "9" },
        ],
    };
    let bytes = serialize_request(&request);
    let expected =
        b"POST /api/submit HTTP/1.1\r\nHost: test-server\r\nContent-Length: 9\r\n\r\nkey=value";
    assert_eq!(bytes, expected.to_vec());
}

#[test]
fn get_never_serializes_a_body() {
    let request = HttpRequest {
        method: HttpMethod::Get,
        path: "/",
        body: b"ignored",
        headers: vec![],
    };
    let bytes = serialize_request(&request);
    assert_eq!(bytes, b"GET / HTTP/1.1\r\n\r\n".to_vec());
}

#[test]
fn serializes_headers_in_given_order() {
    let request = HttpRequest {
        method: HttpMethod::Get,
        path: "/x",
        body: &[],
        headers: vec![
            HttpHeaderView { key: "B", value: "2" },
            HttpHeaderView { key: "A", value: "1" },
        ],
    };
    let bytes = serialize_request(&request);
    assert_eq!(bytes, b"GET /x HTTP/1.1\r\nB: 2\r\nA: 1\r\n\r\n".to_vec());
}

#[test]
fn io_failure_mapping_is_deterministic() {
    assert_eq!(
        Error::from_io_failure(IoFailureKind::NotFound),
        Error::Transport(TransportError::DnsFailure)
    );
    assert_eq!(
        Error::from_io_failure(IoFailureKind::ConnectionRefused),
        Error::Transport(TransportError::SocketConnectFailure)
    );
    assert_eq!(
        Error::from_io_failure(IoFailureKind::ConnectionReset),
        Error::Transport(TransportError::ConnectionClosed)
    );
    assert_eq!(
        Error::from_io_failure(IoFailureKind::BrokenPipe),
        Error::Transport(TransportError::SocketWriteFailure)
    );
    assert_eq!(
        Error::from_io_failure(IoFailureKind::NameResolution),
        Error::Transport(TransportError::DnsFailure)
    );
    assert_eq!(
        Error::from_io_failure(IoFailureKind::Other),
        Error::Transport(TransportError::SocketReadFailure)
    );
}

#[test]
fn errors_describe_themselves() {
    assert_eq!(Error::Transport(TransportError::DnsFailure).describe(), "DnsFailure");
    assert_eq!(Error::Http(HttpClientError::InvalidRequest).describe(), "InvalidRequest");
    assert_eq!(TransportError::ConnectionClosed.describe(), "ConnectionClosed");
    assert_eq!(HttpClientError::HttpParseFailure.describe(), "HttpParseFailure");
}

#[test]
fn xor_checksum_folds_all_bytes() {
    assert_eq!(xor_checksum(&[]), 0);
    assert_eq!(xor_checksum(b"a"), 97);
    assert_eq!(xor_checksum(b"abc"), (97u64 ^ 98) ^ 99);
    let data = vec![0x5Au8; 7];
    assert_eq!(xor_checksum(&data), 0x5A);
}
