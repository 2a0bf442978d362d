use arachne_ws::handshake::{
    accept_connection, extract_websocket_key, generate_accept_key, has_header_end,
    has_upgrade_header, perform_handshake, HandshakeError,
};
use arachne_ws::WebSocketError;

fn sample_request() -> Vec<u8> {
    b"GET /chat HTTP/1.1\r\n\
Host: example.com\r\n\
Upgrade: websocket\r\n\
Connection: Upgrade\r\n\
Sec-WebSocket-Key: dGhlIHNhbXBsZSBub25jZQ==\r\n\
Sec-WebSocket-Version: 13\r\n\r\n"
        .to_vec()
}

#[test]
fn accept_key_well_known_vector() {
    let key = b"dGhlIHNhbXBsZSBub25jZQ==".to_vec();
    let accept = generate_accept_key(&key);
    assert_eq!(accept, b"s3pPLMBiTxaQ9kYGzzhZRbK+xOo=".to_vec());
}

#[test]
fn accept_key_depends_on_the_key() {
    let a = generate_accept_key(&b"AAAAAAAAAAAAAAAAAAAAAA==".to_vec());
    let b = generate_accept_key(&b"BBBBBBBBBBBBBBBBBBBBBB==".to_vec());
    assert_ne!(a, b);
    assert_eq!(a.len(), 28);
    assert_eq!(b.len(), 28);
}

#[test]
fn extract_key_from_sample_request() {
    let key = extract_websocket_key(&sample_request()).unwrap();
    assert_eq!(key, b"dGhlIHNhbXBsZSBub25jZQ==".to_vec());
}

#[test]
fn extract_key_is_case_insensitive() {
    let request = b"GET / HTTP/1.1\r\nSEC-WEBSOCKET-KEY: abc123\r\n\r\n".to_vec();
    assert_eq!(extract_websocket_key(&request).unwrap(), b"abc123".to_vec());
}

#[test]
fn extract_key_takes_first_token_after_padding() {
    let request = b"Sec-WebSocket-Key:   abc  def\r\n".to_vec();
    assert_eq!(extract_websocket_key(&request).unwrap(), b"abc".to_vec());
}

#[test]
fn extract_key_on_the_last_line_without_crlf() {
    let request = b"GET / HTTP/1.1\r\nSec-WebSocket-Key: xyz".to_vec();
    assert_eq!(extract_websocket_key(&request).unwrap(), b"xyz".to_vec());
}

#[test]
fn extract_key_missing_header() {
    let request = b"GET / HTTP/1.1\r\nUpgrade: websocket\r\n\r\n".to_vec();
    assert!(extract_websocket_key(&request).is_none());
}

#[test]
fn extract_key_empty_value() {
    let request = b"Sec-WebSocket-Key:\r\nHost: x\r\n".to_vec();
    assert!(extract_websocket_key(&request).is_none());
    let request = b"Sec-WebSocket-Key:   \r\nHost: x\r\n".to_vec();
    assert!(extract_websocket_key(&request).is_none());
}

#[test]
fn extract_key_header_must_start_a_line() {
    let request = b"X-Fake: Sec-WebSocket-Key: evil\r\n".to_vec();
    assert!(extract_websocket_key(&request).is_none());
}

#[test]
fn handshake_response_sample() {
    let response = perform_handshake(&sample_request()).unwrap();
    let expected = b"HTTP/1.1 101 Switching Protocols\r\n\
Upgrade: websocket\r\n\
Connection: Upgrade\r\n\
Sec-WebSocket-Accept: s3pPLMBiTxaQ9kYGzzhZRbK+xOo=\r\n\r\n"
        .to_vec();
    assert_eq!(response, expected);
}

#[test]
fn handshake_without_key_is_rejected() {
    let request = b"GET / HTTP/1.1\r\nUpgrade: websocket\r\n\r\n".to_vec();
    let result = perform_handshake(&request);
    assert!(matches!(
        result,
        Err(WebSocketError::HandshakeError(HandshakeError::InvalidKey(ref d)))
            if d == "Missing or invalid Sec-WebSocket-Key"
    ));
}

#[test]
fn upgrade_header_detection() {
    assert!(has_upgrade_header(&sample_request()));
    assert!(has_upgrade_header(&b"upgrade: WebSocket\r\n".to_vec()));
    assert!(!has_upgrade_header(&b"GET / HTTP/1.1\r\nHost: x\r\n\r\n".to_vec()));
    assert!(!has_upgrade_header(&Vec::new()));
}

#[test]
fn accept_connection_sample() {
    let response = accept_connection(&sample_request()).unwrap();
    assert_eq!(
        response,
        perform_handshake(&sample_request()).unwrap()
    );
}

#[test]
fn header_end_detection() {
    assert!(has_header_end(&sample_request()));
    assert!(has_header_end(&b"\r\n\r\n".to_vec()));
    assert!(!has_header_end(&b"GET / HTTP/1.1\r\nHost: x\r\n".to_vec()));
    assert!(!has_header_end(&Vec::new()));
}

#[test]
fn accept_connection_rejects_truncated_preamble() {
    let request = b"GET / HTTP/1.1\r\nUpgrade: websocket\r\nSec-WebSocket-Key: abc".to_vec();
    let result = accept_connection(&request);
    assert!(matches!(
        result,
        Err(WebSocketError::HandshakeError(HandshakeError::InvalidKey(ref d)))
            if d == "Incomplete HTTP request"
    ));
}

#[test]
fn handshake_error_descriptions() {
    assert_eq!(
        HandshakeError::MissingKey.message(),
        "Missing Sec-WebSocket-Key header"
    );
    assert_eq!(
        HandshakeError::InvalidKey("bad".to_string()).message(),
        "Invalid Sec-WebSocket-Key: bad"
    );
}

#[test]
fn handshake_error_converts_to_websocket_error() {
    let err = WebSocketError::from(HandshakeError::MissingKey);
    assert!(matches!(
        err,
        WebSocketError::HandshakeError(HandshakeError::MissingKey)
    ));
}

#[test]
fn accept_connection_rejects_plain_http() {
    let request = b"GET / HTTP/1.1\r\nHost: example.com\r\n\r\n".to_vec();
    let result = accept_connection(&request);
    assert!(matches!(
        result,
        Err(WebSocketError::HandshakeError(HandshakeError::InvalidKey(ref d)))
            if d == "Not a WebSocket request"
    ));
}
