use rrpc::frame::{encode_frame, FrameType};
use rrpc::wire::{
    decode_stream_error, error_frame, error_message_payload, error_result_payload,
    stream_error_text,
};

#[test]
fn error_message_payload_is_length_then_utf8() {
    let p = error_message_payload(&"boom".to_string());
    assert_eq!(p, vec![4, b'b', b'o', b'o', b'm']);
}

#[test]
fn error_message_payload_counts_utf8_bytes() {
    let p = error_message_payload(&"é".to_string());
    assert_eq!(p, vec![2, 0xC3, 0xA9]);
}

#[test]
fn error_message_payload_long_length_is_multibyte_varint() {
    let text = "x".repeat(200);
    let p = error_message_payload(&text);
    assert_eq!(&p[..2], &[0xC8, 0x01]);
    assert_eq!(p.len(), 202);
    assert!(p[2..].iter().all(|b| *b == b'x'));
}

#[test]
fn error_result_payload_is_err_variant_then_string() {
    let p = error_result_payload("bad".to_string());
    assert_eq!(p, vec![1, 3, b'b', b'a', b'd']);
}

#[test]
fn error_frame_carries_encoded_message() {
    let f = error_frame(3, 99, &"no".to_string());
    let expected = encode_frame(FrameType::StreamError, 3, 99, &[2, b'n', b'o']);
    assert_eq!(f, expected);
}

#[test]
fn decode_stream_error_reads_message() {
    let text = decode_stream_error(&[5, b'o', b'o', b'p', b's', b'!']);
    assert_eq!(text, "oops!");
}

#[test]
fn decode_stream_error_reads_back_error_payload() {
    let p = error_message_payload(&"disk full".to_string());
    assert_eq!(decode_stream_error(&p), "disk full");
}

#[test]
fn decode_stream_error_falls_back_on_bad_payload() {
    assert_eq!(decode_stream_error(&[]), "Unknown stream error");
    assert_eq!(decode_stream_error(&[3, b'a']), "Unknown stream error");
    assert_eq!(decode_stream_error(&[2, 0xFF, 0xFE]), "Unknown stream error");
}

#[test]
fn stream_error_text_uses_decoded_or_fallback() {
    assert_eq!(stream_error_text(Some("x".to_string())), "x");
    assert_eq!(stream_error_text(None), "Unknown stream error");
}
