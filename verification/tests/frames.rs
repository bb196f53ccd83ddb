use rhubarb::frame::{FrameError, WebSocketFrame, WebSocketOpCode};

fn mk_frame(fin: bool, opcode: WebSocketOpCode, masked: bool, len: usize) -> WebSocketFrame {
    let data: Vec<u8> = (0..len).map(|i| (i % 251) as u8).collect();
    WebSocketFrame {
        fin,
        masked,
        opcode,
        payload_len: len as u64,
        mask_key: if masked { Some([0x01, 0x02, 0x03, 0x04]) } else { None },
        data,
    }
}

#[test]
fn parse() {
    let frame = WebSocketFrame::parse(vec![1]);
    assert_eq!(frame, Err(FrameError::Truncated));
}

#[test]
fn frame_round_trips() {
    let opcodes = [
        WebSocketOpCode::Continuation,
        WebSocketOpCode::Text,
        WebSocketOpCode::Binary,
        WebSocketOpCode::Close,
        WebSocketOpCode::Ping,
        WebSocketOpCode::Pong,
        WebSocketOpCode::Reserved,
    ];
    for fin in [false, true] {
        for opcode in opcodes {
            for masked in [false, true] {
                for len in [0usize, 1, 125, 126, 65535, 65536] {
                    let frame = mk_frame(fin, opcode, masked, len);
                    let encoded = frame.clone().encode();
                    let decoded = WebSocketFrame::parse(encoded).expect("round trip decodes");
                    assert_eq!(decoded, frame);
                }
            }
        }
    }
}

#[test]
fn masking_round_trip() {
    let frame = WebSocketFrame {
        fin: true,
        masked: true,
        opcode: WebSocketOpCode::Text,
        payload_len: 3,
        mask_key: Some([0x01, 0x02, 0x03, 0x04]),
        data: b"abc".to_vec(),
    };
    let encoded = frame.clone().encode();
    // fin+text, mask bit+len 3, the 4 key bytes, then "abc" XORed with the key
    assert_eq!(encoded, vec![0x81, 0x83, 0x01, 0x02, 0x03, 0x04, 0x60, 0x60, 0x60]);
    let decoded = WebSocketFrame::parse(encoded).expect("masked frame decodes");
    assert_eq!(decoded.data, b"abc".to_vec());
    assert_eq!(decoded, frame);
}

#[test]
fn minimal_length_encodings() {
    let e125 = mk_frame(true, WebSocketOpCode::Binary, false, 125).encode();
    assert_eq!(e125.len(), 2 + 125);
    assert_eq!(e125[1], 125);

    let e126 = mk_frame(true, WebSocketOpCode::Binary, false, 126).encode();
    assert_eq!(e126.len(), 4 + 126);
    assert_eq!(&e126[1..4], &[126, 0x00, 0x7e]);

    let e65535 = mk_frame(true, WebSocketOpCode::Binary, false, 65535).encode();
    assert_eq!(e65535.len(), 4 + 65535);
    assert_eq!(&e65535[1..4], &[126, 0xff, 0xff]);

    let e65536 = mk_frame(true, WebSocketOpCode::Binary, false, 65536).encode();
    assert_eq!(e65536.len(), 10 + 65536);
    assert_eq!(&e65536[1..10], &[127, 0, 0, 0, 0, 0, 0x01, 0x00, 0x00]);
}

#[test]
fn non_minimal_lengths_decode() {
    // a 3-byte payload declared through the 16-bit extension
    let decoded = WebSocketFrame::parse(vec![0x82, 126, 0x00, 0x03, b'a', b'b', b'c'])
        .expect("wide encoding decodes");
    assert_eq!(decoded.payload_len, 3);
    assert_eq!(decoded.data, b"abc".to_vec());
    // and through the 64-bit extension
    let decoded = WebSocketFrame::parse(vec![
        0x82, 127, 0, 0, 0, 0, 0, 0, 0x00, 0x03, b'a', b'b', b'c',
    ])
    .expect("wide encoding decodes");
    assert_eq!(decoded.payload_len, 3);
    assert_eq!(decoded.data, b"abc".to_vec());
}

#[test]
fn truncated_frames_rejected() {
    let cases: Vec<Vec<u8>> = vec![
        vec![],
        vec![0x81],
        vec![0x81, 0x03, b'a'],                  // payload shorter than declared
        vec![0x81, 126, 0x00],                   // missing 16-bit length byte
        vec![0x81, 127, 0, 0, 0],                // missing 64-bit length bytes
        vec![0x81, 0x83, 0x01, 0x02],            // missing mask-key bytes
        vec![0x81, 0x83, 0x01, 0x02, 0x03, 0x04],// masked, payload missing
        vec![0x81, 126, 0x00, 0x05, b'a', b'b'], // extended length, short payload
    ];
    for case in cases {
        assert_eq!(WebSocketFrame::parse(case), Err(FrameError::Truncated));
    }
}

#[test]
fn trailing_bytes_ignored() {
    let decoded = WebSocketFrame::parse(vec![0x81, 0x01, b'x', 0xde, 0xad]).expect("decodes");
    assert_eq!(decoded.payload_len, 1);
    assert_eq!(decoded.data, b"x".to_vec());
}

#[test]
fn opcode_nibbles() {
    let expected = [
        (0x0u8, WebSocketOpCode::Continuation),
        (0x1, WebSocketOpCode::Text),
        (0x2, WebSocketOpCode::Binary),
        (0x3, WebSocketOpCode::Reserved),
        (0x4, WebSocketOpCode::Reserved),
        (0x5, WebSocketOpCode::Reserved),
        (0x6, WebSocketOpCode::Reserved),
        (0x7, WebSocketOpCode::Reserved),
        (0x8, WebSocketOpCode::Close),
        (0x9, WebSocketOpCode::Ping),
        (0xA, WebSocketOpCode::Pong),
        (0xB, WebSocketOpCode::Reserved),
        (0xC, WebSocketOpCode::Reserved),
        (0xD, WebSocketOpCode::Reserved),
        (0xE, WebSocketOpCode::Reserved),
        (0xF, WebSocketOpCode::Reserved),
    ];
    for (nibble, opcode) in expected {
        let decoded = WebSocketFrame::parse(vec![0x80 | nibble, 0x00]).expect("decodes");
        assert_eq!(decoded.opcode, opcode);
        assert!(decoded.fin);
        assert!(!decoded.masked);
    }
    // Reserved has no nibble of its own; it encodes to the lowest reserved value
    let encoded = mk_frame(false, WebSocketOpCode::Reserved, false, 0).encode();
    assert_eq!(encoded, vec![0x03, 0x00]);
}
