//! The server's side of the protocol: what it does with each incoming frame,
//! and the response frame that answers a request.

use crate::client::{route_spec, ClientRoute, PendingRequest};
use crate::frame::{
    decode_header, encode_frame, frame_bytes, lemma_frame_roundtrip, FrameType, STREAM_HEADER_SIZE,
};
use crate::frame::{header_bytes, payload_len_field};
use crate::wire::{
    error_result_payload, lemma_postcard_string_roundtrip, postcard_error_result, postcard_string,
    postcard_string_decoding,
};
use vstd::utf8::encode_utf8;
use vstd::prelude::*;

verus! {

/// What the server does with an incoming frame.
pub enum ServerStep {
    /// A request: dispatch it to the service and answer with a response frame.
    Dispatch,
    /// A stream frame from the client, which the server does not route.
    StreamFrame,
    /// A response frame, which a server never expects.
    UnexpectedResponse,
}

/// Decide what the server does with a frame of this type.
pub fn server_step(frame_type: FrameType) -> (step: ServerStep)
    ensures
        step == (match frame_type {
            FrameType::Request => ServerStep::Dispatch,
            FrameType::Response => ServerStep::UnexpectedResponse,
            _ => ServerStep::StreamFrame,
        }),
{
    match frame_type {
        FrameType::Request => ServerStep::Dispatch,
        FrameType::StreamItem | FrameType::StreamEnd | FrameType::StreamError => {
            ServerStep::StreamFrame
        },
        FrameType::Response => ServerStep::UnexpectedResponse,
    }
}

/// The payload that answers a request: what the service's dispatch produced,
/// or, where dispatch failed, the failure's message as an encoded `Err`.
pub open spec fn response_payload_spec(outcome: Result<Seq<u8>, Seq<char>>) -> Seq<u8> {
    match outcome {
        Ok(data) => data,
        Err(message) => postcard_error_result(message),
    }
}

/// The response frame for a request with the given method and request ids.
pub fn response_frame(method_id: u16, request_id: u64, outcome: Result<Vec<u8>, String>) -> (frame:
    Vec<u8>)
    ensures
        frame@ == frame_bytes(
            FrameType::Response,
            method_id,
            request_id,
            response_payload_spec(
                match outcome {
                    Ok(data) => Ok(data@),
                    Err(message) => Err(message@),
                },
            ),
        ),
        outcome matches Ok(data) ==> frame@ == header_bytes(
            FrameType::Response,
            method_id,
            request_id,
            payload_len_field(data@.len()),
        ) + data@,
        outcome matches Err(message) ==> frame@ == header_bytes(
            FrameType::Response,
            method_id,
            request_id,
            payload_len_field(postcard_error_result(message@).len()),
        ) + seq![1u8] + postcard_string(message@),
{
    let ghost given = outcome;
    let payload = match outcome {
        Ok(data) => data,
        Err(message) => error_result_payload(message),
    };
    let frame = encode_frame(FrameType::Response, method_id, request_id, payload.as_slice());
    proof {
        if let Err(message) = given {
            assert(seq![1u8] + postcard_string(message@) =~= postcard_error_result(message@));
            assert(frame@ =~= header_bytes(
                FrameType::Response,
                method_id,
                request_id,
                payload_len_field(postcard_error_result(message@).len()),
            ) + seq![1u8] + postcard_string(message@));
        }
    }
    frame
}

/// A successful dispatch is answered with its output byte for byte: the
/// bytes after the response frame's header are exactly what dispatch
/// produced, and the header's length field is their count.
pub proof fn lemma_response_carries_dispatch_output(method_id: u16, request_id: u64, data: Seq<u8>)
    requires
        data.len() <= u32::MAX,
    ensures
        response_payload_spec(Ok(data)) == data,
        ({
            let frame = frame_bytes(
                FrameType::Response,
                method_id,
                request_id,
                response_payload_spec(Ok(data)),
            );
            &&& frame.len() == STREAM_HEADER_SIZE + data.len()
            &&& frame.skip(STREAM_HEADER_SIZE as int) == data
            &&& decode_header(frame.take(STREAM_HEADER_SIZE as int)) == Some(
                (FrameType::Response, method_id, request_id, data.len() as u32),
            )
        }),
{
    lemma_frame_roundtrip(FrameType::Response, method_id, request_id, data);
    crate::frame::lemma_header_len(FrameType::Response, method_id, request_id, payload_len_field(data.len()));
}

/// A failed dispatch is answered with its message: the response payload is
/// the `Err` variant tag 1 followed by an encoding that decodes back to
/// exactly the message.
pub proof fn lemma_response_carries_dispatch_error(message: Seq<char>)
    requires
        encode_utf8(message).len() <= usize::MAX,
    ensures
        response_payload_spec(Err(message)).len() >= 1,
        response_payload_spec(Err(message))[0] == 1u8,
        postcard_string_decoding(response_payload_spec(Err(message)).skip(1)) == Some(message),
{
    lemma_postcard_string_roundtrip(message, Seq::empty());
    assert(response_payload_spec(Err(message)).skip(1) =~= postcard_string(message) + Seq::<u8>::empty());
}

/// A call and its answer correlate: the server reads the request's method and
/// request ids and its payload back out of the request frame; the response
/// frame it builds carries the same two ids and the response payload; and the
/// client, on reading that response, completes the unary call it registered
/// under the request id.
pub proof fn lemma_response_answers_request<U, S>(
    table: Map<u64, PendingRequest<U, S>>,
    method_id: u16,
    request_id: u64,
    call: U,
    request_payload: Seq<u8>,
    outcome: Result<Seq<u8>, Seq<char>>,
)
    requires
        request_payload.len() <= u32::MAX,
        response_payload_spec(outcome).len() <= u32::MAX,
    ensures
        ({
            let request = frame_bytes(FrameType::Request, method_id, request_id, request_payload);
            &&& decode_header(request.take(STREAM_HEADER_SIZE as int)) == Some(
                (FrameType::Request, method_id, request_id, request_payload.len() as u32),
            )
            &&& request.skip(STREAM_HEADER_SIZE as int) == request_payload
        }),
        ({
            let payload = response_payload_spec(outcome);
            let response = frame_bytes(FrameType::Response, method_id, request_id, payload);
            &&& decode_header(response.take(STREAM_HEADER_SIZE as int)) == Some(
                (FrameType::Response, method_id, request_id, payload.len() as u32),
            )
            &&& response.skip(STREAM_HEADER_SIZE as int) == payload
        }),
        route_spec(
            table.insert(request_id, PendingRequest::Unary(call)),
            FrameType::Response,
            request_id,
        ).1 == ClientRoute::<U, S>::CompleteUnary(call),
{
    lemma_frame_roundtrip(FrameType::Request, method_id, request_id, request_payload);
    lemma_frame_roundtrip(
        FrameType::Response,
        method_id,
        request_id,
        response_payload_spec(outcome),
    );
}

} // verus!
