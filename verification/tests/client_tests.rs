//! The client facade: request-shape validation before any I/O, and
//! end-to-end request cycles over the in-memory transport.

use httprust::checksum::xor_checksum;
use httprust::error::{Error, HttpClientError};
use httprust::http1_protocol::Http1Protocol;
use httprust::http_protocol::{HttpHeaderView, HttpMethod, HttpRequest};
use httprust::httprust::HttpClient;
use httprust::mem_transport::MemTransport;

fn client_with(input: &[u8], chunk_limit: usize) -> HttpClient<Http1Protocol<MemTransport>> {
    let protocol = Http1Protocol::new(MemTransport::with_input(input.to_vec(), chunk_limit));
    let mut client = HttpClient::with_protocol(protocol);
    client.connect("peer", 0).unwrap();
    client
}

#[test]
fn get_request_safe_succeeds() {
    let canned = b"HTTP/1.1 200 OK\r\nContent-Length: 7\r\n\r\nsuccess";
    let mut client = client_with(canned, 1024);
    let mut request = HttpRequest {
        method: HttpMethod::Get,
        path: "/test",
        body: &[],
        headers: vec![],
    };
    let res = client.get_safe(&mut request).unwrap();
    assert_eq!(res.status_code, 200);
    assert_eq!(res.body, b"success".to_vec());
    client.disconnect().unwrap();
}

#[test]
fn get_request_unsafe_succeeds() {
    let canned = b"HTTP/1.1 200 OK\r\nContent-Length: 7\r\n\r\nsuccess";
    let mut client = client_with(canned, 1024);
    let mut request = HttpRequest {
        method: HttpMethod::Get,
        path: "/test",
        body: &[],
        headers: vec![],
    };
    {
        let res = client.get_unsafe(&mut request).unwrap();
        assert_eq!(res.status_code, 200);
        assert_eq!(res.body, b"success");
    }
    client.disconnect().unwrap();
}

#[test]
fn post_request_safe_succeeds() {
    let canned = b"HTTP/1.1 200 OK\r\nContent-Length: 7\r\n\r\nsuccess";
    let mut client = client_with(canned, 1024);
    let body = b"key=value";
    let len_text = body.len().to_string();
    let mut request = HttpRequest {
        method: HttpMethod::Get,
        path: "/submit",
        body,
        headers: vec![HttpHeaderView { key: "Content-Length", value: &len_text }],
    };
    let res = client.post_safe(&mut request).unwrap();
    assert_eq!(res.status_code, 200);
    assert_eq!(res.body, b"success".to_vec());
    // The facade forces the method to POST.
    assert_eq!(request.method, HttpMethod::Post);
}

#[test]
fn post_request_unsafe_succeeds() {
    let canned = b"HTTP/1.1 200 OK\r\nContent-Length: 7\r\n\r\nsuccess";
    let mut client = client_with(canned, 1024);
    let body = b"key=value";
    let len_text = body.len().to_string();
    let mut request = HttpRequest {
        method: HttpMethod::Get,
        path: "/submit",
        body,
        headers: vec![HttpHeaderView { key: "Content-Length", value: &len_text }],
    };
    let res = client.post_unsafe(&mut request).unwrap();
    assert_eq!(res.status_code, 200);
    assert_eq!(res.body, b"success");
}

#[test]
fn get_request_with_body_returns_error() {
    let mut client = HttpClient::<Http1Protocol<MemTransport>>::new();
    let mut request = HttpRequest {
        method: HttpMethod::Get,
        path: "/test",
        body: b"this body is not allowed",
        headers: vec![],
    };
    let result_safe = client.get_safe(&mut request);
    assert_eq!(
        result_safe.unwrap_err(),
        Error::Http(HttpClientError::InvalidRequest)
    );
    let result_unsafe = client.get_unsafe(&mut request);
    assert_eq!(
        result_unsafe.unwrap_err(),
        Error::Http(HttpClientError::InvalidRequest)
    );
}

#[test]
fn post_request_without_body_returns_error() {
    let mut client = HttpClient::<Http1Protocol<MemTransport>>::new();
    let mut request = HttpRequest {
        method: HttpMethod::Post,
        path: "/test",
        body: b"",
        headers: vec![HttpHeaderView { key: "Content-Length", value: "0" }],
    };
    let result_safe = client.post_safe(&mut request);
    assert_eq!(
        result_safe.unwrap_err(),
        Error::Http(HttpClientError::InvalidRequest)
    );
    let result_unsafe = client.post_unsafe(&mut request);
    assert_eq!(
        result_unsafe.unwrap_err(),
        Error::Http(HttpClientError::InvalidRequest)
    );
}

#[test]
fn post_request_without_content_length_returns_error() {
    let mut client = HttpClient::<Http1Protocol<MemTransport>>::new();
    let mut request = HttpRequest {
        method: HttpMethod::Post,
        path: "/test",
        body: b"some body",
        headers: vec![],
    };
    let result_safe = client.post_safe(&mut request);
    assert_eq!(
        result_safe.unwrap_err(),
        Error::Http(HttpClientError::InvalidRequest)
    );
    let result_unsafe = client.post_unsafe(&mut request);
    assert_eq!(
        result_unsafe.unwrap_err(),
        Error::Http(HttpClientError::InvalidRequest)
    );
}

#[test]
fn post_accepts_content_length_key_in_any_case() {
    let canned = b"HTTP/1.1 200 OK\r\nContent-Length: 2\r\n\r\nok";
    let mut client = client_with(canned, 1024);
    let mut request = HttpRequest {
        method: HttpMethod::Get,
        path: "/submit",
        body: b"data",
        headers: vec![HttpHeaderView { key: "CONTENT-length", value: "4" }],
    };
    let res = client.post_safe(&mut request).unwrap();
    assert_eq!(res.body, b"ok".to_vec());
}

#[test]
fn validation_failures_leave_request_untouched() {
    let mut client = HttpClient::<Http1Protocol<MemTransport>>::new();
    let mut request = HttpRequest {
        method: HttpMethod::Post,
        path: "/keep",
        body: b"",
        headers: vec![],
    };
    let _ = client.post_safe(&mut request);
    assert_eq!(request.method, HttpMethod::Post);
    assert_eq!(request.path, "/keep");
}

#[test]
fn multi_request_checksum_verification_succeeds() {
    const CYCLES: usize = 8;

    // The scripted peer answers every request with the same response: a
    // payload followed by its sixteen-digit hexadecimal checksum.
    let payload = b"0123456789abcdefghijklmnopqrstuv".to_vec();
    let checksum_hex = format!("{:016x}", xor_checksum(&payload));
    let mut one_response = format!(
        "HTTP/1.1 200 OK\r\nContent-Length: {}\r\n\r\n",
        payload.len() + checksum_hex.len()
    )
    .into_bytes();
    one_response.extend_from_slice(&payload);
    one_response.extend_from_slice(checksum_hex.as_bytes());

    let mut input = Vec::new();
    for _ in 0..CYCLES {
        input.extend_from_slice(&one_response);
    }
    let mut client = client_with(&input, one_response.len());

    for i in 0..CYCLES {
        let body = vec![b'x'; 100 + i];
        let checksum = format!("{:016x}", xor_checksum(&body));
        let mut full_payload = body.clone();
        full_payload.extend_from_slice(checksum.as_bytes());
        let len_text = full_payload.len().to_string();
        let mut request = HttpRequest {
            method: HttpMethod::Get,
            path: "/",
            body: &full_payload,
            headers: vec![HttpHeaderView { key: "Content-Length", value: &len_text }],
        };
        let res = client.post_safe(&mut request).unwrap();
        assert_eq!(res.status_code, 200);
        assert!(res.body.len() >= 16);
        let res_payload = &res.body[..res.body.len() - 16];
        let res_checksum = std::str::from_utf8(&res.body[res.body.len() - 16..]).unwrap();
        assert_eq!(
            xor_checksum(res_payload),
            u64::from_str_radix(res_checksum, 16).unwrap(),
            "checksum mismatch on cycle {}",
            i
        );
    }
    client.disconnect().unwrap();
}
