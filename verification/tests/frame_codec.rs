use rrpc::frame::{decode_stream_header, encode_frame, encode_stream_header, FrameType, STREAM_HEADER_SIZE};

#[test]
fn frame_type_from_u8_maps_each_byte() {
    assert_eq!(FrameType::from_u8(0), Some(FrameType::Request));
    assert_eq!(FrameType::from_u8(1), Some(FrameType::Response));
    assert_eq!(FrameType::from_u8(2), Some(FrameType::StreamItem));
    assert_eq!(FrameType::from_u8(3), Some(FrameType::StreamEnd));
    assert_eq!(FrameType::from_u8(4), Some(FrameType::StreamError));
    assert_eq!(FrameType::from_u8(5), None);
    assert_eq!(FrameType::from_u8(255), None);
}

#[test]
fn frame_type_byte_roundtrip() {
    for v in 0u8..=255 {
        if let Some(ft) = FrameType::from_u8(v) {
            assert_eq!(ft.as_u8(), v);
        } else {
            assert!(v > 4);
        }
    }
    for ft in [
        FrameType::Request,
        FrameType::Response,
        FrameType::StreamItem,
        FrameType::StreamEnd,
        FrameType::StreamError,
    ] {
        assert_eq!(FrameType::from_u8(ft.as_u8()), Some(ft));
    }
}

#[test]
fn header_size_is_fifteen() {
    assert_eq!(STREAM_HEADER_SIZE, 15);
}

#[test]
fn encode_header_exact_bytes() {
    let h = encode_stream_header(FrameType::StreamItem, 0x0102, 0x0807_0605_0403_0201, 0x0A0B_0C0D);
    assert_eq!(
        h,
        [2, 0x02, 0x01, 0x01, 0x02, 0x03, 0x04, 0x05, 0x06, 0x07, 0x08, 0x0D, 0x0C, 0x0B, 0x0A]
    );
}

#[test]
fn decode_encoded_header_roundtrip() {
    let cases = [
        (FrameType::Request, 0u16, 1u64, 0u32),
        (FrameType::Response, 7, 42, 5),
        (FrameType::StreamItem, u16::MAX, u64::MAX, u32::MAX),
        (FrameType::StreamEnd, 3, 9, 0),
        (FrameType::StreamError, 12, 1 << 40, 1 << 20),
    ];
    for (ft, m, r, l) in cases {
        let h = encode_stream_header(ft, m, r, l);
        assert_eq!(decode_stream_header(&h), Some((ft, m, r, l)));
    }
}

#[test]
fn decode_rejects_unknown_frame_type() {
    let mut h = encode_stream_header(FrameType::Request, 1, 2, 3);
    h[0] = 9;
    assert_eq!(decode_stream_header(&h), None);
}

#[test]
fn decode_then_encode_gives_header_back() {
    let h: [u8; 15] = [4, 9, 8, 7, 6, 5, 4, 3, 2, 1, 0, 0xFF, 0xEE, 0xDD, 0xCC];
    let (ft, m, r, l) = decode_stream_header(&h).unwrap();
    assert_eq!(ft, FrameType::StreamError);
    assert_eq!(m, 0x0809);
    assert_eq!(r, 0x0001_0203_0405_0607);
    assert_eq!(l, 0xCCDD_EEFF);
    assert_eq!(encode_stream_header(ft, m, r, l), h);
}

#[test]
fn encode_frame_is_header_then_payload() {
    let payload = [10u8, 20, 30];
    let msg = encode_frame(FrameType::Request, 5, 77, &payload);
    assert_eq!(msg.len(), STREAM_HEADER_SIZE + 3);
    let mut head = [0u8; 15];
    head.copy_from_slice(&msg[..15]);
    assert_eq!(decode_stream_header(&head), Some((FrameType::Request, 5, 77, 3)));
    assert_eq!(&msg[15..], &payload);
}

#[test]
fn empty_frame_is_header_with_zero_length() {
    let msg = encode_frame(FrameType::StreamEnd, 2, 11, &[]);
    assert_eq!(msg, encode_stream_header(FrameType::StreamEnd, 2, 11, 0).to_vec());
}
