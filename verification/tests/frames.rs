use arachne_ws::frame::{construct_frame, parse_frame, unmask, OpCode, WebSocketFrame};
use arachne_ws::WebSocketError;

#[test]
fn parse_masked_text_hello() {
    // opcode 1, masked, 5-byte payload "Hello", key 37 fa 21 3d
    let data = vec![0x81, 0x85, 0x37, 0xfa, 0x21, 0x3d, 0x7f, 0x9f, 0x4d, 0x51, 0x58];
    let (frame, used) = parse_frame(&data).unwrap();
    assert_eq!(frame.opcode, OpCode::Text);
    assert_eq!(frame.payload, b"Hello".to_vec());
    assert_eq!(used, 11);
}

#[test]
fn serialize_text_hello() {
    let frame = WebSocketFrame { opcode: OpCode::Text, payload: b"Hello".to_vec() };
    let bytes = construct_frame(&frame);
    assert_eq!(bytes, vec![0x81, 0x05, 0x48, 0x65, 0x6c, 0x6c, 0x6f]);
}

#[test]
fn serialize_binary_200_bytes_uses_16_bit_length() {
    let payload = vec![0xabu8; 200];
    let frame = WebSocketFrame { opcode: OpCode::Binary, payload: payload.clone() };
    let bytes = construct_frame(&frame);
    assert_eq!(&bytes[..4], &[0x82, 0x7e, 0x00, 0xc8]);
    assert_eq!(&bytes[4..], &payload[..]);
}

#[test]
fn serialize_binary_70000_bytes_uses_64_bit_length() {
    let payload = vec![0x01u8; 70000];
    let frame = WebSocketFrame { opcode: OpCode::Binary, payload };
    let bytes = construct_frame(&frame);
    assert_eq!(
        &bytes[..10],
        &[0x82, 0x7f, 0x00, 0x00, 0x00, 0x00, 0x00, 0x01, 0x11, 0x70]
    );
    assert_eq!(bytes.len(), 10 + 70000);
}

#[test]
fn header_length_boundaries() {
    for (len, header) in [(0usize, 2usize), (125, 2), (126, 4), (65535, 4), (65536, 10)] {
        let frame = WebSocketFrame { opcode: OpCode::Binary, payload: vec![0u8; len] };
        let bytes = construct_frame(&frame);
        assert_eq!(bytes.len(), header + len, "payload length {}", len);
    }
}

#[test]
fn round_trip_each_opcode() {
    for opcode in [
        OpCode::Continuation,
        OpCode::Text,
        OpCode::Binary,
        OpCode::Close,
        OpCode::Ping,
        OpCode::Pong,
    ] {
        let payload = vec![7u8, 8, 9];
        let frame = WebSocketFrame { opcode, payload: payload.clone() };
        let bytes = construct_frame(&frame);
        let (parsed, used) = parse_frame(&bytes).unwrap();
        assert_eq!(parsed.opcode, opcode);
        assert_eq!(parsed.payload, payload);
        assert_eq!(used, bytes.len());
    }
}

#[test]
fn round_trip_boundary_lengths() {
    for len in [0usize, 1, 125, 126, 127, 65535, 65536, 70000] {
        let payload: Vec<u8> = (0..len).map(|i| (i % 251) as u8).collect();
        let frame = WebSocketFrame { opcode: OpCode::Binary, payload: payload.clone() };
        let bytes = construct_frame(&frame);
        let (parsed, used) = parse_frame(&bytes).unwrap();
        assert_eq!(parsed.opcode, OpCode::Binary);
        assert_eq!(parsed.payload, payload);
        assert_eq!(used, bytes.len());
    }
}

#[test]
fn parse_leaves_trailing_bytes() {
    let mut data = construct_frame(&WebSocketFrame { opcode: OpCode::Ping, payload: vec![1, 2] });
    let first_len = data.len();
    data.extend_from_slice(&[0x81, 0x00, 0xff]);
    let (frame, used) = parse_frame(&data).unwrap();
    assert_eq!(frame.opcode, OpCode::Ping);
    assert_eq!(frame.payload, vec![1, 2]);
    assert_eq!(used, first_len);
}

#[test]
fn invalid_opcodes_rejected() {
    for v in 0u8..=255 {
        let nibble = v & 0x0f;
        if matches!(nibble, 0x0 | 0x1 | 0x2 | 0x8 | 0x9 | 0xa) {
            continue;
        }
        let data = vec![v, 0x00];
        assert!(
            matches!(parse_frame(&data), Err(WebSocketError::InvalidFrame)),
            "first byte {:#x} should be an invalid frame",
            v
        );
    }
}

#[test]
fn opcode_from_byte_covers_the_closed_set() {
    assert!(matches!(OpCode::from_byte(0x0), Ok(OpCode::Continuation)));
    assert!(matches!(OpCode::from_byte(0x1), Ok(OpCode::Text)));
    assert!(matches!(OpCode::from_byte(0x2), Ok(OpCode::Binary)));
    assert!(matches!(OpCode::from_byte(0x8), Ok(OpCode::Close)));
    assert!(matches!(OpCode::from_byte(0x9), Ok(OpCode::Ping)));
    assert!(matches!(OpCode::from_byte(0xa), Ok(OpCode::Pong)));
    for v in [0x3u8, 0x4, 0x5, 0x6, 0x7, 0xb, 0xc, 0xd, 0xe, 0xf, 0x10, 0xff] {
        assert!(matches!(OpCode::from_byte(v), Err(WebSocketError::InvalidFrame)));
    }
}

#[test]
fn short_reads_are_io_errors() {
    // no second header byte
    assert!(matches!(parse_frame(&vec![0x81]), Err(WebSocketError::IoError)));
    // missing extended length
    assert!(matches!(parse_frame(&vec![0x81, 0x7e, 0x00]), Err(WebSocketError::IoError)));
    // missing masking key
    assert!(matches!(
        parse_frame(&vec![0x81, 0x85, 0x37, 0xfa]),
        Err(WebSocketError::IoError)
    ));
    // missing payload bytes
    assert!(matches!(parse_frame(&vec![0x81, 0x05, 0x48]), Err(WebSocketError::IoError)));
}

#[test]
fn empty_close_frame() {
    let bytes = construct_frame(&WebSocketFrame { opcode: OpCode::Close, payload: Vec::new() });
    assert_eq!(bytes, vec![0x88, 0x00]);
    let (frame, used) = parse_frame(&bytes).unwrap();
    assert_eq!(frame.opcode, OpCode::Close);
    assert!(frame.payload.is_empty());
    assert_eq!(used, 2);
}

#[test]
fn unmask_is_an_involution() {
    let payload = vec![0x00u8, 0x12, 0x34, 0x56, 0x78, 0x9a, 0xbc, 0xde, 0xff];
    let key = vec![0x37u8, 0xfa, 0x21, 0x3d];
    let once = unmask(&payload, &key);
    assert_ne!(once, payload);
    let twice = unmask(&once, &key);
    assert_eq!(twice, payload);
}

#[test]
fn unmasked_client_frames_are_accepted() {
    let data = vec![0x81, 0x02, 0x68, 0x69];
    let (frame, used) = parse_frame(&data).unwrap();
    assert_eq!(frame.opcode, OpCode::Text);
    assert_eq!(frame.payload, b"hi".to_vec());
    assert_eq!(used, 4);
}

#[test]
fn non_minimal_extended_length_is_read_as_declared() {
    // a 3-byte payload declared through the 16-bit form
    let data = vec![0x82, 0x7e, 0x00, 0x03, 0xaa, 0xbb, 0xcc];
    let (frame, used) = parse_frame(&data).unwrap();
    assert_eq!(frame.payload, vec![0xaa, 0xbb, 0xcc]);
    assert_eq!(used, 7);
}
