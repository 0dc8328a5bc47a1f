//! Frame types and the fixed-size frame header.
//!
//! Header layout: `[frame_type: u8][method_id: u16][request_id: u64][payload_len: u32]`,
//! all integers little-endian, 15 bytes in all.

use vstd::bytes::*;
use vstd::prelude::*;

verus! {

/// Frame types for the wire protocol.
#[derive(Debug, Clone, Copy, PartialEq, Eq, Structural)]
pub enum FrameType {
    /// Unary request (client -> server)
    Request,
    /// Unary response (server -> client)
    Response,
    /// Stream data item (either direction)
    StreamItem,
    /// Stream completed successfully (either direction)
    StreamEnd,
    /// Stream error (either direction)
    StreamError,
}

/// The byte that stands for a frame type on the wire.
pub open spec fn frame_type_code(ft: FrameType) -> u8 {
    match ft {
        FrameType::Request => 0,
        FrameType::Response => 1,
        FrameType::StreamItem => 2,
        FrameType::StreamEnd => 3,
        FrameType::StreamError => 4,
    }
}

/// The frame type that a byte stands for, if any.
pub open spec fn frame_type_of(v: u8) -> Option<FrameType> {
    if v == 0 {
        Some(FrameType::Request)
    } else if v == 1 {
        Some(FrameType::Response)
    } else if v == 2 {
        Some(FrameType::StreamItem)
    } else if v == 3 {
        Some(FrameType::StreamEnd)
    } else if v == 4 {
        Some(FrameType::StreamError)
    } else {
        None
    }
}

impl FrameType {
    /// Decode a frame type from its wire byte; bytes above 4 are not frame types.
    pub fn from_u8(v: u8) -> (r: Option<Self>)
        ensures
            r == frame_type_of(v),
    {
        match v {
            0 => Some(FrameType::Request),
            1 => Some(FrameType::Response),
            2 => Some(FrameType::StreamItem),
            3 => Some(FrameType::StreamEnd),
            4 => Some(FrameType::StreamError),
            _ => None,
        }
    }

    /// The wire byte of this frame type.
    pub fn as_u8(self) -> (r: u8)
        ensures
            r == frame_type_code(self),
    {
        match self {
            FrameType::Request => 0,
            FrameType::Response => 1,
            FrameType::StreamItem => 2,
            FrameType::StreamEnd => 3,
            FrameType::StreamError => 4,
        }
    }
}

/// Size of the frame header in bytes.
pub const STREAM_HEADER_SIZE: usize = 15;

/// The header bytes of a frame with the given fields.
pub open spec fn header_bytes(ft: FrameType, method_id: u16, request_id: u64, payload_len: u32) -> Seq<
    u8,
> {
    seq![frame_type_code(ft)] + spec_u16_to_le_bytes(method_id) + spec_u64_to_le_bytes(request_id)
        + spec_u32_to_le_bytes(payload_len)
}

/// What a 15-byte header decodes to: `None` exactly when its first byte is no frame type.
pub open spec fn decode_header(h: Seq<u8>) -> Option<(FrameType, u16, u64, u32)> {
    match frame_type_of(h[0]) {
        Some(ft) => Some(
            (
                ft,
                spec_u16_from_le_bytes(h.subrange(1, 3)),
                spec_u64_from_le_bytes(h.subrange(3, 11)),
                spec_u32_from_le_bytes(h.subrange(11, 15)),
            ),
        ),
        None => None,
    }
}

/// Encode a streaming frame header.
pub fn encode_stream_header(
    frame_type: FrameType,
    method_id: u16,
    request_id: u64,
    payload_len: u32,
) -> (header: [u8; STREAM_HEADER_SIZE])
    ensures
        header@ == header_bytes(frame_type, method_id, request_id, payload_len),
{
    proof {
        lemma_auto_spec_u16_to_from_le_bytes();
        lemma_auto_spec_u32_to_from_le_bytes();
        lemma_auto_spec_u64_to_from_le_bytes();
    }
    let m = u16_to_le_bytes(method_id);
    let r = u64_to_le_bytes(request_id);
    let l = u32_to_le_bytes(payload_len);
    let header = [
        frame_type.as_u8(),
        m[0],
        m[1],
        r[0],
        r[1],
        r[2],
        r[3],
        r[4],
        r[5],
        r[6],
        r[7],
        l[0],
        l[1],
        l[2],
        l[3],
    ];
    assert(header@ =~= header_bytes(frame_type, method_id, request_id, payload_len));
    header
}

/// Decode a streaming frame header.
pub fn decode_stream_header(header: &[u8; STREAM_HEADER_SIZE]) -> (r: Option<
    (FrameType, u16, u64, u32),
>)
    ensures
        r == decode_header(header@),
{
    let frame_type = FrameType::from_u8(header[0])?;
    let m = [header[1], header[2]];
    let r = [header[3], header[4], header[5], header[6], header[7], header[8], header[9], header[10]];
    let l = [header[11], header[12], header[13], header[14]];
    assert(m@ =~= header@.subrange(1, 3));
    assert(r@ =~= header@.subrange(3, 11));
    assert(l@ =~= header@.subrange(11, 15));
    let method_id = u16_from_le_bytes(m.as_slice());
    let request_id = u64_from_le_bytes(r.as_slice());
    let payload_len = u32_from_le_bytes(l.as_slice());
    Some((frame_type, method_id, request_id, payload_len))
}

/// Every frame type survives the trip through its wire byte, and a byte that
/// decodes to a frame type is that type's wire byte.
pub proof fn lemma_frame_type_byte_roundtrip(ft: FrameType, v: u8)
    ensures
        frame_type_of(frame_type_code(ft)) == Some(ft),
        frame_type_of(v) == Some(ft) ==> frame_type_code(ft) == v,
        frame_type_of(v) is None <==> v > 4,
{
}

/// A header is always exactly `STREAM_HEADER_SIZE` bytes long.
pub proof fn lemma_header_len(ft: FrameType, method_id: u16, request_id: u64, payload_len: u32)
    ensures
        header_bytes(ft, method_id, request_id, payload_len).len() == STREAM_HEADER_SIZE,
{
    lemma_auto_spec_u16_to_from_le_bytes();
    lemma_auto_spec_u32_to_from_le_bytes();
    lemma_auto_spec_u64_to_from_le_bytes();
}

/// Decoding an encoded header gives back the fields it was encoded from.
pub proof fn lemma_header_roundtrip(
    ft: FrameType,
    method_id: u16,
    request_id: u64,
    payload_len: u32,
)
    ensures
        decode_header(header_bytes(ft, method_id, request_id, payload_len)) == Some(
            (ft, method_id, request_id, payload_len),
        ),
{
    lemma_auto_spec_u16_to_from_le_bytes();
    lemma_auto_spec_u32_to_from_le_bytes();
    lemma_auto_spec_u64_to_from_le_bytes();
    let h = header_bytes(ft, method_id, request_id, payload_len);
    assert(h.subrange(1, 3) =~= spec_u16_to_le_bytes(method_id));
    assert(h.subrange(3, 11) =~= spec_u64_to_le_bytes(request_id));
    assert(h.subrange(11, 15) =~= spec_u32_to_le_bytes(payload_len));
}

/// A header that decodes is the encoding of what it decodes to: no two
/// headers decode to the same fields.
pub proof fn lemma_header_decode_encode(h: Seq<u8>)
    requires
        h.len() == STREAM_HEADER_SIZE,
    ensures
        decode_header(h) matches Some((ft, m, r, l)) ==> header_bytes(ft, m, r, l) == h,
{
    lemma_auto_spec_u16_to_from_le_bytes();
    lemma_auto_spec_u32_to_from_le_bytes();
    lemma_auto_spec_u64_to_from_le_bytes();
    if let Some((ft, m, r, l)) = decode_header(h) {
        assert(spec_u16_to_le_bytes(m) == h.subrange(1, 3));
        assert(spec_u64_to_le_bytes(r) == h.subrange(3, 11));
        assert(spec_u32_to_le_bytes(l) == h.subrange(11, 15));
        assert(header_bytes(ft, m, r, l) =~= h);
    }
}

/// The header's length field for a payload of `n` bytes: the length taken
/// modulo 2^32, as the 32-bit field holds it.
pub open spec fn payload_len_field(n: nat) -> u32 {
    (n % 0x1_0000_0000) as u32
}

/// The bytes of a whole frame: its header followed by its payload.
pub open spec fn frame_bytes(ft: FrameType, method_id: u16, request_id: u64, payload: Seq<u8>) -> Seq<
    u8,
> {
    header_bytes(ft, method_id, request_id, payload_len_field(payload.len())) + payload
}

/// Build the message for one frame: the header for `payload`, then `payload`.
pub fn encode_frame(frame_type: FrameType, method_id: u16, request_id: u64, payload: &[u8]) -> (message:
    Vec<u8>)
    ensures
        message@ == frame_bytes(frame_type, method_id, request_id, payload@),
{
    let len_field = (payload.len() as u64 % 0x1_0000_0000) as u32;
    let header = encode_stream_header(frame_type, method_id, request_id, len_field);
    let mut message: Vec<u8> = Vec::new();
    message.extend_from_slice(header.as_slice());
    message.extend_from_slice(payload);
    assert(message@ =~= frame_bytes(frame_type, method_id, request_id, payload@));
    message
}

/// A frame whose payload fits the length field splits back into its parts:
/// the first `STREAM_HEADER_SIZE` bytes decode to the frame's fields and the
/// rest is the payload.
pub proof fn lemma_frame_roundtrip(
    ft: FrameType,
    method_id: u16,
    request_id: u64,
    payload: Seq<u8>,
)
    requires
        payload.len() <= u32::MAX,
    ensures
        decode_header(frame_bytes(ft, method_id, request_id, payload).take(STREAM_HEADER_SIZE as int))
            == Some((ft, method_id, request_id, payload.len() as u32)),
        frame_bytes(ft, method_id, request_id, payload).skip(STREAM_HEADER_SIZE as int) == payload,
{
    let len = payload_len_field(payload.len());
    assert(len == payload.len());
    lemma_header_len(ft, method_id, request_id, len);
    lemma_header_roundtrip(ft, method_id, request_id, len);
    let f = frame_bytes(ft, method_id, request_id, payload);
    assert(f.take(STREAM_HEADER_SIZE as int) =~= header_bytes(ft, method_id, request_id, len));
    assert(f.skip(STREAM_HEADER_SIZE as int) =~= payload);
}

/// A frame with no payload is its header alone, with a zero length field:
/// the message that ends a stream.
pub proof fn lemma_empty_frame_is_header(ft: FrameType, method_id: u16, request_id: u64)
    ensures
        frame_bytes(ft, method_id, request_id, Seq::empty()) == header_bytes(
            ft,
            method_id,
            request_id,
            0,
        ),
{
    assert(frame_bytes(ft, method_id, request_id, Seq::empty()) =~= header_bytes(
        ft,
        method_id,
        request_id,
        0,
    ));
}

} // verus!
