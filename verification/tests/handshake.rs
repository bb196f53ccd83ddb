use rhubarb::accept::{accept_key, generate_key};
use rhubarb::client::{create_handshake_http_request, validate_server_handshake};
use rhubarb::server::validate_handshake;

// ---- server-side validation ----

#[test]
fn server_valid_handshake() {
    let handshake = "GET /ws HTTP/1.1\n\
        Host: 127.0.0.1:4024\n\
        Upgrade: websocket\n\
        Connection: Upgrade\n\
        Sec-WebSocket-Key: dGhlIHNhbXBsZSBub25jZQ==\n\
        Sec-WebSocket-Protocol: rhubarb\n\
        Sec-WebSocket-Version: 13";
    assert_eq!(
        validate_handshake(handshake.as_bytes(), b"127.0.0.1:4024"),
        Ok(b"s3pPLMBiTxaQ9kYGzzhZRbK+xOo=".to_vec())
    );
}

fn server_err(handshake: &str, hostname: &str) -> Vec<u8> {
    validate_handshake(handshake.as_bytes(), hostname.as_bytes())
        .expect_err("handshake must be rejected")
        .message_bytes()
}

#[test]
fn malformed_request() {
    assert_eq!(
        server_err("POST /ws HTTP/1.1", "localhost"),
        b"Handshake is not a GET Request".to_vec()
    );
    assert_eq!(
        server_err("GET /ws PTTH/1.1", "localhost"),
        b"Handshake is using an invalid HTTP version, must be HTTP/1.1 or higher".to_vec()
    );
    assert_eq!(
        server_err("GET /ws HTTP/1.0", "localhost"),
        b"Handshake is using an invalid HTTP version, must be HTTP/1.1 or higher".to_vec()
    );
}

#[test]
fn bad_host_header() {
    assert_eq!(
        server_err("GET /ws HTTP/1.1", "localhost"),
        b"Handshake missing Host header".to_vec()
    );
    assert_eq!(
        server_err(
            "GET /ws HTTP/1.1\n            Host: badhost",
            "localhost"
        ),
        b"Invalid hostname".to_vec()
    );
}

#[test]
fn server_bad_upgrade_header() {
    assert_eq!(
        server_err(
            "GET /ws HTTP/1.1\n                    Host: localhost",
            "localhost"
        ),
        b"Handshake missing Upgrade header".to_vec()
    );
    assert_eq!(
        server_err(
            "GET /ws HTTP/1.1\n                    Host: localhost\n                    Upgrade: Not Websocket",
            "localhost"
        ),
        b"Requested Upgrade was not 'websocket'".to_vec()
    );
}

#[test]
fn server_bad_connection_header() {
    assert_eq!(
        server_err(
            "GET /ws HTTP/1.1\n            Host: localhost\n            Upgrade: Websocket",
            "localhost"
        ),
        b"Handshake missing Connection header".to_vec()
    );
    assert_eq!(
        server_err(
            "GET /ws HTTP/1.1\n            Host: localhost\n            Upgrade: Websocket\n            Connection: Not Upgrade",
            "localhost"
        ),
        b"Requested Connection was not 'upgrade'".to_vec()
    );
}

#[test]
fn bad_version_header() {
    assert_eq!(
        server_err(
            "GET /ws HTTP/1.1\n                    Host: localhost\n                    Upgrade: Websocket\n                    Connection: Upgrade",
            "localhost"
        ),
        b"Handshake missing Sec-WebSocket-Version header".to_vec()
    );
    assert_eq!(
        server_err(
            "GET /ws HTTP/1.1\n                    Host: localhost\n                    Upgrade: Websocket\n                    Connection: Upgrade\n                    Sec-WebSocket-Version: 14",
            "localhost"
        ),
        b"Requested Sec-WebSocket-Version was not '13'".to_vec()
    );
}

#[test]
fn bad_key_header() {
    assert_eq!(
        server_err(
            "GET /ws HTTP/1.1\n                    Host: localhost\n                    Upgrade: Websocket\n                    Connection: Upgrade\n                    Sec-WebSocket-Version: 13",
            "localhost"
        ),
        b"Handshake missing Sec-WebSocket-Key header".to_vec()
    );
    assert_eq!(
        server_err(
            "GET /ws HTTP/1.1\n                    Host: localhost\n                    Upgrade: Websocket\n                    Connection: Upgrade\n                    Sec-WebSocket-Version: 13\n                    Sec-WebSocket-Key: foo",
            "localhost"
        ),
        b"Invalid Sec-WebSocket-Key".to_vec()
    );
}

#[test]
fn missing_uri_and_version_token() {
    assert_eq!(
        server_err("GET", "localhost"),
        b"Handshake contains invalid URI resource".to_vec()
    );
    assert_eq!(
        server_err("GET /ws", "localhost"),
        b"Handshake is using an invalid HTTP version, must be HTTP/1.1 or higher".to_vec()
    );
    assert_eq!(
        server_err("", "localhost"),
        b"Handshake is not a GET Request".to_vec()
    );
}

#[test]
fn later_http_versions_accepted() {
    for version in ["HTTP/2", "HTTP/3"] {
        let handshake = format!(
            "GET /ws {version}\n\
            Host: localhost\n\
            Upgrade: websocket\n\
            Connection: Upgrade\n\
            Sec-WebSocket-Version: 13\n\
            Sec-WebSocket-Key: dGhlIHNhbXBsZSBub25jZQ=="
        );
        assert!(validate_handshake(handshake.as_bytes(), b"localhost").is_ok());
    }
}

#[test]
fn repeated_header_last_wins() {
    let handshake = "GET /ws HTTP/1.1\n\
        Host: firsthost\n\
        Host: localhost\n\
        Upgrade: websocket\n\
        Connection: Upgrade\n\
        Sec-WebSocket-Version: 13\n\
        Sec-WebSocket-Key: dGhlIHNhbXBsZSBub25jZQ==";
    assert!(validate_handshake(handshake.as_bytes(), b"localhost").is_ok());
}

#[test]
fn header_names_case_insensitive() {
    let handshake = "GET /ws HTTP/1.1\n\
        HOST: localhost\n\
        UPGRADE: WebSocket\n\
        CONNECTION: UPGRADE\n\
        SEC-WEBSOCKET-VERSION: 13\n\
        SEC-WEBSOCKET-KEY: dGhlIHNhbXBsZSBub25jZQ==";
    assert_eq!(
        validate_handshake(handshake.as_bytes(), b"localhost"),
        Ok(b"s3pPLMBiTxaQ9kYGzzhZRbK+xOo=".to_vec())
    );
}

#[test]
fn crlf_request_accepted() {
    let handshake = "GET /ws HTTP/1.1\r\n\
        Host: localhost\r\n\
        Upgrade: websocket\r\n\
        Connection: Upgrade\r\n\
        Sec-WebSocket-Version: 13\r\n\
        Sec-WebSocket-Key: dGhlIHNhbXBsZSBub25jZQ==\r\n\r\n";
    assert_eq!(
        validate_handshake(handshake.as_bytes(), b"localhost"),
        Ok(b"s3pPLMBiTxaQ9kYGzzhZRbK+xOo=".to_vec())
    );
}

// ---- the accept-key derivation ----

#[test]
fn accept_key_known_value() {
    assert_eq!(
        accept_key(b"dGhlIHNhbXBsZSBub25jZQ=="),
        b"s3pPLMBiTxaQ9kYGzzhZRbK+xOo=".to_vec()
    );
}

#[test]
fn generated_keys_are_wellformed() {
    let key = generate_key();
    assert_eq!(key.len(), 24);
    for b in &key {
        assert!(
            b.is_ascii_alphanumeric() || *b == b'+' || *b == b'/' || *b == b'=',
            "not a Base64 byte: {b}"
        );
    }
}

// ---- client-side validation ----

#[test]
fn client_valid_handshake() {
    let key = generate_key();
    let request = create_handshake_http_request(b"/ws", b"127.0.0.1:4024", &key);
    assert!(request.starts_with(b"GET /ws HTTP/1.1"));
    let server_key = accept_key(&key);
    let mut response = b"HTTP/1.1 101 Switching Protocols\n\
        Upgrade: websocket\n\
        Connection: Upgrade\n\
        Sec-WebSocket-Accept: "
        .to_vec();
    response.extend_from_slice(&server_key);
    assert!(validate_server_handshake(&response, &key).is_ok());
}

#[test]
fn client_request_round_trips_through_server() {
    let key = generate_key();
    let request = create_handshake_http_request(b"/ws", b"localhost", &key);
    assert_eq!(
        validate_handshake(&request, b"localhost"),
        Ok(accept_key(&key))
    );
}

fn client_err(response: &str, key: &str) -> Vec<u8> {
    validate_server_handshake(response.as_bytes(), key.as_bytes())
        .expect_err("response must be rejected")
        .message_bytes()
}

#[test]
fn malformed_response() {
    assert_eq!(client_err("", ""), b"Missing response code".to_vec());
    assert_eq!(
        client_err("HTTP/1.1 400 Bad Request", ""),
        b"Invalid response code 400".to_vec()
    );
}

#[test]
fn client_bad_upgrade_header() {
    assert_eq!(
        client_err("HTTP/1.1 101 Switching Protocols", ""),
        b"Handshake missing Upgrade header".to_vec()
    );
    assert_eq!(
        client_err(
            "HTTP/1.1 101 Switching Protocols\n\
                    Upgrade: not-websocket",
            ""
        ),
        b"Requested Upgrade was not 'websocket'".to_vec()
    );
}

#[test]
fn client_bad_connection_header() {
    assert_eq!(
        client_err(
            "HTTP/1.1 101 Switching Protocols\n\
                    Upgrade: websocket",
            ""
        ),
        b"Handshake missing Connection header".to_vec()
    );
    assert_eq!(
        client_err(
            "HTTP/1.1 101 Switching Protocols\n\
                    Upgrade: websocket\n\
                    Connection: not upgrade",
            ""
        ),
        b"Requested Connection was not 'upgrade'".to_vec()
    );
}

#[test]
fn bad_key() {
    assert_eq!(
        client_err(
            "HTTP/1.1 101 Switching Protocols\n\
                    Upgrade: websocket\n\
                    Connection: upgrade\n",
            ""
        ),
        b"Handshake missing Sec-WebSocket-Accept header".to_vec()
    );
    assert_eq!(
        client_err(
            "HTTP/1.1 101 Switching Protocols\n\
                    Upgrade: websocket\n\
                    Connection: upgrade\n\
                    Sec-WebSocket-Accept: invalid-key",
            "somekey"
        ),
        b"Server key invalid".to_vec()
    );
}
