use losker::greetd_ipc::{byte_order_of, decode_frame, encode_frame, native_order, u32_bytes, u32_value, ByteOrder, FrameError, MAX_FRAME};

#[test]
fn wire_frame_is_length_prefixed_native_u32() {
    // the exact greetd wire format: [len: u32 native][JSON], no newline
    let json = br#"{"type":"cancel_session"}"#;
    let frame = encode_frame(native_order(), json);
    let mut expected = Vec::new();
    expected.extend_from_slice(&(json.len() as u32).to_ne_bytes());
    expected.extend_from_slice(json);
    assert_eq!(frame, expected);

    // and the reader side understands the same framing (response frame)
    let json = br#"{"type":"success"}"#;
    let mut resp_frame = Vec::new();
    resp_frame.extend_from_slice(&(json.len() as u32).to_ne_bytes());
    resp_frame.extend_from_slice(json);
    let (payload, used) = decode_frame(native_order(), &resp_frame).unwrap();
    assert_eq!(payload, json.to_vec());
    assert_eq!(used, resp_frame.len());
}

#[test]
fn length_prefix_in_both_orders() {
    assert_eq!(u32_bytes(ByteOrder::Little, 0x0102_0304), [4, 3, 2, 1]);
    assert_eq!(u32_bytes(ByteOrder::Big, 0x0102_0304), [1, 2, 3, 4]);
    assert_eq!(u32_value(ByteOrder::Little, &[4, 3, 2, 1]), 0x0102_0304);
    assert_eq!(u32_value(ByteOrder::Big, &[1, 2, 3, 4]), 0x0102_0304);
}

#[test]
fn frames_decode_back_to_their_payload() {
    for order in [ByteOrder::Little, ByteOrder::Big] {
        let payload = b"hello".to_vec();
        let mut bytes = encode_frame(order, &payload);
        bytes.extend_from_slice(b"trailing");
        assert_eq!(decode_frame(order, &bytes), Ok((payload, 9)));
    }
}

#[test]
fn bad_frames_are_refused() {
    let o = ByteOrder::Little;
    assert_eq!(decode_frame(o, &[1, 0]), Err(FrameError::Truncated));
    assert_eq!(decode_frame(o, &[5, 0, 0, 0, b'a']), Err(FrameError::Truncated));
    assert_eq!(decode_frame(o, &[0, 0, 0, 0]), Err(FrameError::Closed));
    let big = (MAX_FRAME as u32) + 1;
    let mut bytes = u32_bytes(o, big).to_vec();
    bytes.push(b'x');
    assert_eq!(decode_frame(o, &bytes), Err(FrameError::TooLarge(big)));
}

#[test]
fn wire_format_roundtrip() {
    // the protocol's JSON messages survive framing byte for byte
    for json in [
        &br#"{"type":"create_session","username":"rbc"}"#[..],
        &br#"{"type":"cancel_session"}"#[..],
        &br#"{"type":"auth_message","auth_message_type":"secret","auth_message":"Password: "}"#[..],
    ] {
        let frame = encode_frame(native_order(), json);
        assert_eq!(frame.len(), json.len() + 4);
        assert_eq!(&frame[..4], &(json.len() as u32).to_ne_bytes());
        assert_eq!(decode_frame(native_order(), &frame), Ok((json.to_vec(), json.len() + 4)));
    }
}

#[test]
fn byte_order_follows_the_bytes_of_one() {
    assert_eq!(byte_order_of([1, 0, 0, 0]), ByteOrder::Little);
    assert_eq!(byte_order_of([0, 0, 0, 1]), ByteOrder::Big);
    assert_eq!(native_order(), byte_order_of(1u32.to_ne_bytes()));
    assert_eq!(u32_bytes(native_order(), 1), 1u32.to_ne_bytes());
    assert_eq!(u32_bytes(native_order(), 0x0102_0304), 0x0102_0304u32.to_ne_bytes());
}
