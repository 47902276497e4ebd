//! The engine over the in-memory transport: framing, parsing, and the
//! zero-copy versus owned result paths.

use httprust::error::{Error, HttpClientError, TransportError};
use httprust::http1_protocol::Http1Protocol;
use httprust::http_protocol::{HttpHeaderView, HttpMethod, HttpProtocol, HttpRequest};
use httprust::mem_transport::MemTransport;

fn get_request() -> HttpRequest<'static> {
    HttpRequest { method: HttpMethod::Get, path: "/", body: &[], headers: vec![] }
}

fn engine_with(input: &[u8], chunk_limit: usize) -> Http1Protocol<MemTransport> {
    let mut protocol = Http1Protocol::new(MemTransport::with_input(input.to_vec(), chunk_limit));
    protocol.connect("peer", 0).unwrap();
    protocol
}

#[test]
fn perform_request_fails_if_not_connected() {
    let mut protocol = Http1Protocol::new(MemTransport::new());
    let request = get_request();
    let result = protocol.perform_request_unsafe(&request);
    assert!(matches!(
        result.unwrap_err(),
        Error::Transport(TransportError::SocketWriteFailure)
    ));
}

#[test]
fn engine_writes_serialized_request_to_transport() {
    let canned = b"HTTP/1.1 200 OK\r\nContent-Length: 0\r\n\r\n";
    let mut protocol = engine_with(canned, 1024);
    let request = HttpRequest {
        method: HttpMethod::Get,
        path: "/test",
        body: &[],
        headers: vec![HttpHeaderView { key: "Host", value: "example.com" }],
    };
    protocol.perform_request_unsafe(&request).unwrap();
    assert_eq!(
        protocol.transport().written(),
        &b"GET /test HTTP/1.1\r\nHost: example.com\r\n\r\n".to_vec()
    );
}

#[test]
fn successfully_parses_response_with_content_length() {
    let canned = b"HTTP/1.1 200 OK\r\nContent-Type: text/plain\r\nContent-Length: 12\r\n\r\nHello Client";
    let mut protocol = engine_with(canned, 1024);
    let request = get_request();
    let res = protocol.perform_request_unsafe(&request).unwrap();
    assert_eq!(res.status_code, 200);
    assert_eq!(res.status_message, "OK");
    assert_eq!(res.headers.len(), 2);
    assert_eq!(res.headers[0].key, "Content-Type");
    assert_eq!(res.headers[0].value, "text/plain");
    assert_eq!(res.headers[1].key, "Content-Length");
    assert_eq!(res.headers[1].value, "12");
    assert_eq!(res.body, b"Hello Client");
}

#[test]
fn successfully_reads_body_on_connection_close() {
    let canned = b"HTTP/1.1 200 OK\r\nConnection: close\r\n\r\nFull body.";
    let mut protocol = engine_with(canned, 1024);
    let request = get_request();
    let res = protocol.perform_request_unsafe(&request).unwrap();
    assert_eq!(res.status_code, 200);
    assert_eq!(res.body, b"Full body.");
    assert_eq!(protocol.get_content_length_for_test(), None);
}

#[test]
fn correctly_parses_complex_status_line_and_headers() {
    let body = b"{\"error\":\"not found\"}";
    let canned = format!(
        "HTTP/1.1 404 Not Found\r\nConnection: close\r\nContent-Type: application/json\r\nX-Request-ID: abc-123\r\nContent-Length: {}\r\n\r\n",
        body.len()
    );
    let mut input = canned.into_bytes();
    input.extend_from_slice(body);
    let mut protocol = engine_with(&input, 1024);
    let request = get_request();
    let res = protocol.perform_request_unsafe(&request).unwrap();
    assert_eq!(res.status_code, 404);
    assert_eq!(res.status_message, "Not Found");
    assert_eq!(res.headers.len(), 4);
    assert_eq!(res.headers[0].key, "Connection");
    assert_eq!(res.headers[0].value, "close");
    assert_eq!(res.headers[1].key, "Content-Type");
    assert_eq!(res.headers[1].value, "application/json");
    assert_eq!(res.headers[2].key, "X-Request-ID");
    assert_eq!(res.headers[2].value, "abc-123");
    assert_eq!(res.headers[3].key, "Content-Length");
    assert_eq!(res.headers[3].value, "21");
    assert_eq!(res.body, body);
}

#[test]
fn handles_zero_content_length_response() {
    let canned = b"HTTP/1.1 204 No Content\r\nConnection: close\r\nContent-Length: 0\r\n\r\n";
    let mut protocol = engine_with(canned, 1024);
    let request = get_request();
    let res = protocol.perform_request_unsafe(&request).unwrap();
    assert_eq!(res.status_code, 204);
    assert_eq!(res.headers.len(), 2);
    assert_eq!(res.headers[1].key, "Content-Length");
    assert_eq!(res.headers[1].value, "0");
    assert!(res.body.is_empty());
}

#[test]
fn handles_response_larger_than_initial_buffer() {
    let large_body = vec![b'a'; 2000];
    let mut input = format!("HTTP/1.1 200 OK\r\nContent-Length: {}\r\n\r\n", large_body.len())
        .into_bytes();
    input.extend_from_slice(&large_body);
    // Small chunks force many reads and repeated buffer growth.
    let mut protocol = engine_with(&input, 97);
    let request = get_request();
    let res = protocol.perform_request_unsafe(&request).unwrap();
    assert_eq!(res.status_code, 200);
    assert_eq!(res.body.len(), large_body.len());
    assert_eq!(res.body, large_body.as_slice());
}

#[test]
fn fails_gracefully_on_bad_content_length() {
    let canned = b"HTTP/1.1 200 OK\r\nContent-Length: 100\r\n\r\nshort body";
    let mut protocol = engine_with(canned, 1024);
    let request = get_request();
    let result = protocol.perform_request_unsafe(&request);
    assert!(matches!(
        result.unwrap_err(),
        Error::Http(HttpClientError::HttpParseFailure)
    ));
}

#[test]
fn content_length_match_is_case_insensitive() {
    let canned = b"HTTP/1.1 200 OK\r\ncontent-LENGTH: 5\r\n\r\nhello trailing";
    let mut protocol = engine_with(canned, 1024);
    let request = get_request();
    let res = protocol.perform_request_unsafe(&request).unwrap();
    assert_eq!(res.body, b"hello");
    assert_eq!(protocol.get_content_length_for_test(), Some(5));
}

#[test]
fn first_content_length_wins_when_duplicated() {
    let canned = b"HTTP/1.1 200 OK\r\nContent-Length: 4\r\nContent-Length: 9\r\n\r\nabcdefghi";
    let mut protocol = engine_with(canned, 1024);
    let request = get_request();
    let res = protocol.perform_request_unsafe(&request).unwrap();
    assert_eq!(res.body, b"abcd");
    assert_eq!(res.headers.len(), 2);
    assert_eq!(protocol.get_content_length_for_test(), Some(4));
}

#[test]
fn malformed_content_length_is_ignored() {
    let canned = b"HTTP/1.1 200 OK\r\nContent-Length: abc\r\n\r\nwhole rest is body";
    let mut protocol = engine_with(canned, 1024);
    let request = get_request();
    let res = protocol.perform_request_unsafe(&request).unwrap();
    assert_eq!(res.body, b"whole rest is body");
    assert_eq!(protocol.get_content_length_for_test(), None);
}

#[test]
fn malformed_content_length_then_valid_one() {
    let canned = b"HTTP/1.1 200 OK\r\nContent-Length: abc\r\nContent-Length: 3\r\n\r\nxyz...";
    let mut protocol = engine_with(canned, 1024);
    let request = get_request();
    let res = protocol.perform_request_unsafe(&request).unwrap();
    assert_eq!(res.body, b"xyz");
    assert_eq!(protocol.get_content_length_for_test(), Some(3));
}

#[test]
fn garbage_without_terminator_fails() {
    let canned = b"this is not an http response";
    let mut protocol = engine_with(canned, 1024);
    let request = get_request();
    let result = protocol.perform_request_unsafe(&request);
    assert!(matches!(
        result.unwrap_err(),
        Error::Http(HttpClientError::HttpParseFailure)
    ));
}

#[test]
fn empty_response_fails_to_parse() {
    let mut protocol = engine_with(b"", 1024);
    let request = get_request();
    let result = protocol.perform_request_unsafe(&request);
    assert!(matches!(
        result.unwrap_err(),
        Error::Http(HttpClientError::HttpParseFailure)
    ));
}

#[test]
fn status_line_without_message_defaults_to_empty() {
    let canned = b"HTTP/1.1 200\r\nContent-Length: 0\r\n\r\n";
    let mut protocol = engine_with(canned, 1024);
    let request = get_request();
    let res = protocol.perform_request_unsafe(&request).unwrap();
    assert_eq!(res.status_code, 200);
    assert_eq!(res.status_message, "");
}

#[test]
fn non_numeric_status_code_fails() {
    let canned = b"HTTP/1.1 abc OK\r\nContent-Length: 0\r\n\r\n";
    let mut protocol = engine_with(canned, 1024);
    let request = get_request();
    let result = protocol.perform_request_unsafe(&request);
    assert!(matches!(
        result.unwrap_err(),
        Error::Http(HttpClientError::HttpParseFailure)
    ));
}

#[test]
fn header_line_without_colon_is_skipped() {
    let canned = b"HTTP/1.1 200 OK\r\nBadHeaderLine\r\nGood: yes\r\nContent-Length: 2\r\n\r\nok";
    let mut protocol = engine_with(canned, 1024);
    let request = get_request();
    let res = protocol.perform_request_unsafe(&request).unwrap();
    assert_eq!(res.headers.len(), 2);
    assert_eq!(res.headers[0].key, "Good");
    assert_eq!(res.headers[0].value, "yes");
    assert_eq!(res.body, b"ok");
}

#[test]
fn content_length_value_accepts_leading_plus() {
    let canned = b"HTTP/1.1 200 OK\r\nContent-Length: +4\r\n\r\nfour...";
    let mut protocol = engine_with(canned, 1024);
    let request = get_request();
    let res = protocol.perform_request_unsafe(&request).unwrap();
    assert_eq!(res.body, b"four");
    assert_eq!(protocol.get_content_length_for_test(), Some(4));
}

#[test]
fn content_length_value_with_trailing_space_is_ignored() {
    let canned = b"HTTP/1.1 200 OK\r\nContent-Length: 2 \r\n\r\nrest is the body";
    let mut protocol = engine_with(canned, 1024);
    let request = get_request();
    let res = protocol.perform_request_unsafe(&request).unwrap();
    assert_eq!(res.body, b"rest is the body");
    assert_eq!(protocol.get_content_length_for_test(), None);
}

#[test]
fn header_with_empty_key_is_kept() {
    let canned = b"HTTP/1.1 200 OK\r\n: anonymous\r\nContent-Length: 2\r\n\r\nok";
    let mut protocol = engine_with(canned, 1024);
    let request = get_request();
    let res = protocol.perform_request_unsafe(&request).unwrap();
    assert_eq!(res.headers.len(), 2);
    assert_eq!(res.headers[0].key, "");
    assert_eq!(res.headers[0].value, "anonymous");
}

#[test]
fn safe_request_returns_owning_deep_copy() {
    let canned = b"HTTP/1.1 200 OK\r\nContent-Length: 11\r\n\r\nSafe Buffer";
    let mut protocol = engine_with(canned, 1024);
    let request = get_request();
    let res = protocol.perform_request_safe(&request).unwrap();
    assert_eq!(res.status_code, 200);
    assert_eq!(res.body, b"Safe Buffer".to_vec());
    assert_eq!(res.status_message, "OK");
    // The owned body lives in its own allocation, not in the engine's
    // internal buffer.
    assert_ne!(
        res.body.as_ptr(),
        protocol.get_internal_buffer_ptr_for_test().as_ptr()
    );
}

#[test]
fn safe_and_unsafe_agree_on_same_wire_bytes() {
    let canned = b"HTTP/1.1 201 Created\r\nLocation: /thing/9\r\nContent-Length: 4\r\n\r\ndone";
    let request = get_request();

    let mut protocol_a = engine_with(canned, 7);
    let safe = protocol_a.perform_request_safe(&request).unwrap();

    let mut protocol_b = engine_with(canned, 7);
    let raw = protocol_b.perform_request_unsafe(&request).unwrap();

    assert_eq!(safe.status_code, raw.status_code);
    assert_eq!(safe.status_message, raw.status_message);
    assert_eq!(safe.body, raw.body.to_vec());
    assert_eq!(safe.headers.len(), raw.headers.len());
    for (owned, view) in safe.headers.iter().zip(raw.headers.iter()) {
        assert_eq!(owned.key, view.key);
        assert_eq!(owned.value, view.value);
    }
}

#[test]
fn safe_response_survives_the_next_request_cycle() {
    let first = b"HTTP/1.1 200 OK\r\nContent-Length: 5\r\n\r\nfirst";
    let second = b"HTTP/1.1 200 OK\r\nContent-Length: 6\r\n\r\nsecond";
    let mut input = first.to_vec();
    input.extend_from_slice(second);
    // Chunks exactly as large as one response keep cycles separate.
    let mut protocol = engine_with(&input, first.len());
    let request = get_request();

    let res1 = protocol.perform_request_safe(&request).unwrap();
    assert_eq!(res1.body, b"first".to_vec());

    let res2 = protocol.perform_request_safe(&request).unwrap();
    assert_eq!(res2.body, b"second".to_vec());

    // The first owned response still holds its own copy.
    assert_eq!(res1.body, b"first".to_vec());
    assert_eq!(res1.status_message, "OK");
}
