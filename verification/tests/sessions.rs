use rhubarb::session::{session_step, SessionEvent, SessionState};

const GOOD_REQUEST: &str = "GET /ws HTTP/1.1\n\
    Host: localhost\n\
    Upgrade: websocket\n\
    Connection: Upgrade\n\
    Sec-WebSocket-Version: 13\n\
    Sec-WebSocket-Key: dGhlIHNhbXBsZSBub25jZQ==";

#[test]
fn handshake_success_establishes() {
    let step = session_step(
        SessionState::Handshaking,
        SessionEvent::Received(GOOD_REQUEST.as_bytes().to_vec()),
        b"localhost",
    );
    assert_eq!(step.state, SessionState::Established);
    assert!(!step.shutdown);
    let reply = step.reply.expect("a 101 response is sent");
    let reply = String::from_utf8(reply).expect("response is text");
    assert!(reply.starts_with("HTTP/1.1 101 Switching Protocols\r\n"));
    assert!(reply.contains("Sec-WebSocket-Accept: s3pPLMBiTxaQ9kYGzzhZRbK+xOo="));
}

#[test]
fn handshake_failure_closes_with_reason() {
    let step = session_step(
        SessionState::Handshaking,
        SessionEvent::Received(b"POST /ws HTTP/1.1".to_vec()),
        b"localhost",
    );
    assert_eq!(step.state, SessionState::Closed);
    assert!(step.shutdown);
    let reply = step.reply.expect("a 400 response is sent");
    assert_eq!(
        reply,
        b"HTTP/1.1 400 Bad Request\r\n\r\nHandshake is not a GET Request".to_vec()
    );
}

#[test]
fn established_echoes() {
    let step = session_step(
        SessionState::Established,
        SessionEvent::Received(b"hello".to_vec()),
        b"localhost",
    );
    assert_eq!(step.state, SessionState::Established);
    assert_eq!(step.reply, Some(b"hello".to_vec()));
    assert!(!step.shutdown);
}

#[test]
fn established_empty_read_is_quiet() {
    let step = session_step(
        SessionState::Established,
        SessionEvent::Received(Vec::new()),
        b"localhost",
    );
    assert_eq!(step.state, SessionState::Established);
    assert_eq!(step.reply, None);
    assert!(!step.shutdown);
}

#[test]
fn bad_text_closes() {
    for state in [SessionState::Handshaking, SessionState::Established] {
        let step = session_step(state, SessionEvent::TextDecodeFailed, b"localhost");
        assert_eq!(step.state, SessionState::Closed);
        assert_eq!(step.reply, None);
        assert!(step.shutdown);
    }
}

#[test]
fn disconnect_closes() {
    for state in [SessionState::Handshaking, SessionState::Established] {
        let step = session_step(state, SessionEvent::Disconnected, b"localhost");
        assert_eq!(step.state, SessionState::Closed);
        assert_eq!(step.reply, None);
        assert!(!step.shutdown);
    }
}

#[test]
fn closed_is_terminal() {
    for event in [
        SessionEvent::Received(b"anything".to_vec()),
        SessionEvent::TextDecodeFailed,
        SessionEvent::Disconnected,
    ] {
        let step = session_step(SessionState::Closed, event, b"localhost");
        assert_eq!(step.state, SessionState::Closed);
        assert_eq!(step.reply, None);
        assert!(!step.shutdown);
    }
}

#[test]
fn sessions_are_independent() {
    // interleave steps of several sessions; each outcome depends only on
    // that session's own request
    let requests: Vec<(Vec<u8>, bool)> = vec![
        (GOOD_REQUEST.as_bytes().to_vec(), true),
        (b"POST /ws HTTP/1.1".to_vec(), false),
        (GOOD_REQUEST.as_bytes().to_vec(), true),
        (b"GET /ws HTTP/1.0".to_vec(), false),
    ];
    let steps: Vec<_> = requests
        .iter()
        .map(|(req, _)| {
            session_step(
                SessionState::Handshaking,
                SessionEvent::Received(req.clone()),
                b"localhost",
            )
        })
        .collect();
    for ((_, expect_ok), step) in requests.iter().zip(&steps) {
        if *expect_ok {
            assert_eq!(step.state, SessionState::Established);
        } else {
            assert_eq!(step.state, SessionState::Closed);
        }
    }
}
