//! Payloads that the protocol itself defines: error messages and error
//! results, in postcard's encoding, and the frames that carry them.

use crate::client::{
    route_spec, stream_continues_spec, stream_step_spec, ClientRoute, PendingRequest, StreamStep,
};
use crate::frame::{
    decode_header, encode_frame, frame_bytes, lemma_frame_roundtrip, FrameType, STREAM_HEADER_SIZE,
};
use vstd::prelude::*;
use vstd::string::*;
use vstd::utf8::{decode_utf8, encode_utf8, encode_utf8_decode_utf8, encode_utf8_valid_utf8, valid_utf8};

verus! {

#[verifier::external_type_specification]
#[verifier::external_body]
pub struct ExPostcardError(postcard::Error);

/// postcard's variable-length integer: seven bits per byte, least significant
/// group first, the high bit set on every byte but the last.
pub open spec fn varint(n: nat) -> Seq<u8>
    decreases n,
{
    if n < 128 {
        seq![n as u8]
    } else {
        seq![((n % 128) + 128) as u8] + varint(n / 128)
    }
}

/// postcard's encoding of a string: its UTF-8 length as a varint, then its UTF-8 bytes.
pub open spec fn postcard_string(s: Seq<char>) -> Seq<u8> {
    varint(encode_utf8(s).len()) + encode_utf8(s)
}

/// postcard's encoding of `Err::<(), String>(s)`: the variant index 1 as a
/// varint, then the string.
pub open spec fn postcard_error_result(s: Seq<char>) -> Seq<u8> {
    seq![1u8] + postcard_string(s)
}

/// Reads a postcard varint of at most `width` bytes from the front of
/// `bytes`: each byte gives seven bits, least significant group first, and a
/// byte below 128 ends the number. Where the number reaches its `width`-th
/// byte, that byte may be at most `last_max`. The result is the number and the
/// count of bytes it took.
pub open spec fn read_varint(bytes: Seq<u8>, width: nat, last_max: u8) -> Option<(nat, nat)>
    decreases width,
{
    if width == 0 || bytes.len() == 0 {
        None
    } else if bytes[0] < 128 {
        if width == 1 && bytes[0] > last_max {
            None
        } else {
            Some((bytes[0] as nat, 1))
        }
    } else {
        match read_varint(bytes.drop_first(), (width - 1) as nat, last_max) {
            Some((v, n)) => Some((((bytes[0] - 128) + 128 * v) as nat, n + 1)),
            None => None,
        }
    }
}

/// The most bytes that a `usize` varint may take: ten on a 64-bit target,
/// five on a 32-bit one.
pub open spec fn usize_varint_width() -> nat {
    if usize::BITS == 64 {
        10
    } else {
        5
    }
}

/// The largest value the last of `usize_varint_width()` bytes may hold: the
/// bits of a `usize` left over for it.
pub open spec fn usize_varint_last_max() -> u8 {
    if usize::BITS == 64 {
        1
    } else {
        15
    }
}

/// What `postcard::from_bytes::<String>` makes of `bytes`: a `usize` varint
/// length `n`, then `n` bytes that must be valid UTF-8, which are the string;
/// bytes after them are ignored. `None` where any of this fails.
pub open spec fn postcard_string_decoding(bytes: Seq<u8>) -> Option<Seq<char>> {
    match read_varint(bytes, usize_varint_width(), usize_varint_last_max()) {
        Some((len, used)) => if used + len <= bytes.len() && valid_utf8(
            bytes.subrange(used as int, (used + len) as int),
        ) {
            Some(decode_utf8(bytes.subrange(used as int, (used + len) as int)))
        } else {
            None
        },
        None => None,
    }
}

/// The numbers below this bound are those that `read_varint` with `width`
/// and `last_max` can read.
pub open spec fn varint_capacity(width: nat, last_max: u8) -> nat
    decreases width,
{
    if width <= 1 {
        (last_max + 1) as nat
    } else {
        128 * varint_capacity((width - 1) as nat, last_max)
    }
}

/// `read_varint` reads back what `varint` wrote, whatever follows it, for
/// every number below the reader's capacity.
pub proof fn lemma_read_varint(n: nat, width: nat, last_max: u8, rest: Seq<u8>)
    requires
        width >= 1,
        last_max < 128,
        n < varint_capacity(width, last_max),
    ensures
        read_varint(varint(n) + rest, width, last_max) == Some((n, varint(n).len())),
    decreases n,
{
    let bytes = varint(n) + rest;
    if n < 128 {
        assert(bytes[0] == n as u8);
        if width == 1 {
            assert(n < last_max + 1);
        }
    } else {
        if width == 1 {
            assert(false);
        }
        let w1 = (width - 1) as nat;
        let q = n / 128;
        assert(n < 128 * varint_capacity(w1, last_max));
        assert(q < varint_capacity(w1, last_max)) by (nonlinear_arith)
            requires
                n < 128 * varint_capacity(w1, last_max),
                q == n / 128,
        ;
        assert(q < n) by (nonlinear_arith)
            requires
                n >= 128,
                q == n / 128,
        ;
        lemma_read_varint(q, w1, last_max, rest);
        assert(bytes[0] == ((n % 128) + 128) as u8);
        assert(bytes.drop_first() =~= varint(q) + rest);
        assert(n == n % 128 + 128 * q) by (nonlinear_arith)
            requires
                q == n / 128,
        ;
    }
}

/// Decoding an encoded string gives the string back, wherever its UTF-8
/// length fits in a `usize` (as the length of any string in memory does).
pub proof fn lemma_postcard_string_roundtrip(s: Seq<char>, rest: Seq<u8>)
    requires
        encode_utf8(s).len() <= usize::MAX,
    ensures
        postcard_string_decoding(postcard_string(s) + rest) == Some(s),
{
    let utf8 = encode_utf8(s);
    let n = utf8.len();
    reveal_with_fuel(varint_capacity, 11);
    if usize::BITS == 64 {
        assert(varint_capacity(10, 1) == 0x1_0000_0000_0000_0000);
    } else {
        assert(varint_capacity(5, 15) == 0x1_0000_0000);
    }
    let bytes = postcard_string(s) + rest;
    assert(bytes =~= varint(n) + (utf8 + rest));
    lemma_read_varint(n, usize_varint_width(), usize_varint_last_max(), utf8 + rest);
    let used = varint(n).len();
    assert(bytes.subrange(used as int, (used + n) as int) =~= utf8);
    encode_utf8_valid_utf8(s);
    encode_utf8_decode_utf8(s);
}

/// Calls `postcard::to_allocvec` on a `String`. Claimed: the call succeeds and
/// yields the varint byte length followed by the UTF-8 bytes (postcard's
/// `serialize_str` into its `AllocVec` flavor, whose pushes never fail).
#[verifier::external_body]
fn postcard_to_vec_string(s: &String) -> (r: Result<Vec<u8>, postcard::Error>)
    ensures
        r is Ok,
        r matches Ok(v) ==> v@ == postcard_string(s@),
{
    postcard::to_allocvec(s)
}

/// Calls `postcard::to_allocvec` on `Err::<(), String>(s)`. Claimed: the call
/// succeeds and yields the variant index 1 followed by the string's encoding
/// (serde's `Result` impl goes through `serialize_newtype_variant`).
#[verifier::external_body]
fn postcard_to_vec_error_result(s: String) -> (r: Result<Vec<u8>, postcard::Error>)
    ensures
        r is Ok,
        r matches Ok(v) ==> v@ == postcard_error_result(s@),
{
    postcard::to_allocvec(&Err::<(), String>(s))
}

/// Calls `postcard::from_bytes::<String>`. Claimed: it succeeds exactly where
/// `postcard_string_decoding` is `Some`, with that string (postcard's
/// `deserialize_string`: a varint length read as the target's `usize`, that
/// many bytes, a UTF-8 check).
#[verifier::external_body]
fn postcard_from_bytes_string(bytes: &[u8]) -> (r: Result<String, postcard::Error>)
    ensures
        r is Ok <==> postcard_string_decoding(bytes@) is Some,
        r matches Ok(s) ==> postcard_string_decoding(bytes@) == Some(s@),
{
    postcard::from_bytes::<String>(bytes)
}

/// The payload that carries an error message: the message in postcard's encoding.
pub fn error_message_payload(message: &String) -> (payload: Vec<u8>)
    ensures
        payload@ == postcard_string(message@),
{
    match postcard_to_vec_string(message) {
        Ok(v) => v,
        Err(_) => Vec::new(),
    }
}

/// The payload of a failed call: `Err::<(), String>(message)` in postcard's encoding.
pub fn error_result_payload(message: String) -> (payload: Vec<u8>)
    ensures
        payload@ == postcard_error_result(message@),
{
    match postcard_to_vec_error_result(message) {
        Ok(v) => v,
        Err(_) => Vec::new(),
    }
}

/// The frame that reports a stream error: a `StreamError` frame whose payload
/// is the encoded message.
pub fn error_frame(method_id: u16, request_id: u64, message: &String) -> (frame: Vec<u8>)
    ensures
        frame@ == frame_bytes(FrameType::StreamError, method_id, request_id, postcard_string(message@)),
{
    let payload = error_message_payload(message);
    encode_frame(FrameType::StreamError, method_id, request_id, payload.as_slice())
}

/// The text that a received stream error stands for: the decoded message, or
/// a fixed text where the payload did not decode.
pub open spec fn stream_error_text_spec(decoded: Option<Seq<char>>) -> Seq<char> {
    match decoded {
        Some(s) => s,
        None => "Unknown stream error"@,
    }
}

/// Turn the outcome of decoding a stream error's payload into its text.
pub fn stream_error_text(decoded: Option<String>) -> (text: String)
    ensures
        text@ == stream_error_text_spec(
            match decoded {
                Some(s) => Some(s@),
                None => None,
            },
        ),
{
    match decoded {
        Some(s) => s,
        None => String::from_str("Unknown stream error"),
    }
}

/// The text of a received stream error frame's payload.
pub fn decode_stream_error(payload: &[u8]) -> (text: String)
    ensures
        text@ == stream_error_text_spec(postcard_string_decoding(payload@)),
{
    let decoded = match postcard_from_bytes_string(payload) {
        Ok(s) => Some(s),
        Err(_) => None,
    };
    stream_error_text(decoded)
}

/// A stream error reaches the receiver as it was sent: the text read from an
/// error frame's payload is the message the sender put in it.
pub proof fn lemma_error_message_roundtrip(message: Seq<char>)
    requires
        encode_utf8(message).len() <= usize::MAX,
    ensures
        stream_error_text_spec(postcard_string_decoding(postcard_string(message))) == message,
{
    lemma_postcard_string_roundtrip(message, Seq::empty());
    assert(postcard_string(message) + Seq::<u8>::empty() =~= postcard_string(message));
}

/// An error sent into a stream ends that stream with the sender's message:
/// the error frame carries the stream's ids and the encoded message; the
/// client hands it to the stream registered under the request id and drops
/// the stream from its table; the stream reads the message back unchanged,
/// reports it, and stops receiving.
pub proof fn lemma_stream_error_reaches_reader<U, S>(
    table: Map<u64, PendingRequest<U, S>>,
    method_id: u16,
    request_id: u64,
    stream: S,
    message: Seq<char>,
    item_decoded: bool,
    item_delivered: bool,
)
    requires
        postcard_string(message).len() <= u32::MAX,
    ensures
        ({
            let payload = postcard_string(message);
            let frame = frame_bytes(FrameType::StreamError, method_id, request_id, payload);
            &&& decode_header(frame.take(STREAM_HEADER_SIZE as int)) == Some(
                (FrameType::StreamError, method_id, request_id, payload.len() as u32),
            )
            &&& frame.skip(STREAM_HEADER_SIZE as int) == payload
            &&& stream_error_text_spec(postcard_string_decoding(payload)) == message
        }),
        route_spec(
            table.insert(request_id, PendingRequest::Stream(stream)),
            FrameType::StreamError,
            request_id,
        ) == (table.remove(request_id), ClientRoute::<U, S>::FinishStream(stream)),
        stream_step_spec(FrameType::StreamError) == StreamStep::Error,
        !stream_continues_spec(StreamStep::Error, item_decoded, item_delivered),
{
    let payload = postcard_string(message);
    lemma_frame_roundtrip(FrameType::StreamError, method_id, request_id, payload);
    lemma_error_message_roundtrip(message);
    let registered = table.insert(request_id, PendingRequest::<U, S>::Stream(stream));
    assert(registered.remove(request_id) =~= table.remove(request_id));
}

} // verus!
