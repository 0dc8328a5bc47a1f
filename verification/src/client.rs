//! The client's side of the protocol: request ids, the table of calls that
//! wait for an answer, and what each incoming frame does to them.

use crate::frame::FrameType;
use std::collections::HashMap;
use vstd::prelude::*;

verus! {

broadcast use vstd::std_specs::hash::group_hash_axioms;

/// A call that waits for frames from the server: a unary call waits for one
/// response, a streaming call for items until the stream ends.
pub enum PendingRequest<U, S> {
    /// Unary request waiting for a single response
    Unary(U),
    /// Streaming request receiving multiple items
    Stream(S),
}

/// The calls in flight on one connection, by request id.
pub struct PendingTable<U, S> {
    map: HashMap<u64, PendingRequest<U, S>>,
}

impl<U, S> View for PendingTable<U, S> {
    type V = Map<u64, PendingRequest<U, S>>;

    closed spec fn view(&self) -> Self::V {
        self.map@
    }
}

/// What the client does with an incoming frame.
pub enum ClientRoute<U, S> {
    /// Hand the payload to this unary call, which is no longer pending.
    CompleteUnary(U),
    /// Hand the item to the stream that is still pending under the frame's id.
    ForwardItem,
    /// Hand the final frame to this stream, which is no longer pending.
    FinishStream(S),
    /// Nothing waits for this frame; drop it.
    Discard,
    /// A request frame, which a client never expects.
    Unexpected,
}

/// The table after a frame arrives, and what to do with the frame.
///
/// A response takes whatever waits under its id out of the table and is
/// delivered only where that was a unary call; an end or error frame does the
/// same for streams; an item leaves the table as it is.
pub open spec fn route_spec<U, S>(
    table: Map<u64, PendingRequest<U, S>>,
    frame_type: FrameType,
    request_id: u64,
) -> (Map<u64, PendingRequest<U, S>>, ClientRoute<U, S>) {
    match frame_type {
        FrameType::Response => (
            table.remove(request_id),
            if table.contains_key(request_id) {
                match table[request_id] {
                    PendingRequest::Unary(u) => ClientRoute::CompleteUnary(u),
                    PendingRequest::Stream(_) => ClientRoute::Discard,
                }
            } else {
                ClientRoute::Discard
            },
        ),
        FrameType::StreamItem => (
            table,
            if table.contains_key(request_id) && table[request_id] is Stream {
                ClientRoute::ForwardItem
            } else {
                ClientRoute::Discard
            },
        ),
        FrameType::StreamEnd | FrameType::StreamError => (
            table.remove(request_id),
            if table.contains_key(request_id) {
                match table[request_id] {
                    PendingRequest::Stream(s) => ClientRoute::FinishStream(s),
                    PendingRequest::Unary(_) => ClientRoute::Discard,
                }
            } else {
                ClientRoute::Discard
            },
        ),
        FrameType::Request => (table, ClientRoute::Unexpected),
    }
}

impl<U, S> PendingTable<U, S> {
    /// An empty table.
    pub fn new() -> (t: Self)
        ensures
            t@ == Map::<u64, PendingRequest<U, S>>::empty(),
    {
        PendingTable { map: HashMap::new() }
    }

    /// Register a call under `request_id`, replacing whatever waited there.
    pub fn register(&mut self, request_id: u64, request: PendingRequest<U, S>)
        ensures
            final(self)@ == old(self)@.insert(request_id, request),
    {
        self.map.insert(request_id, request);
    }

    /// Route an incoming frame to the call it answers.
    pub fn route(&mut self, frame_type: FrameType, request_id: u64) -> (r: ClientRoute<U, S>)
        ensures
            (final(self)@, r) == route_spec(old(self)@, frame_type, request_id),
    {
        match frame_type {
            FrameType::Response => {
                match self.map.remove(&request_id) {
                    Some(PendingRequest::Unary(u)) => ClientRoute::CompleteUnary(u),
                    _ => ClientRoute::Discard,
                }
            },
            FrameType::StreamItem => {
                match self.map.get(&request_id) {
                    Some(PendingRequest::Stream(_)) => ClientRoute::ForwardItem,
                    _ => ClientRoute::Discard,
                }
            },
            FrameType::StreamEnd | FrameType::StreamError => {
                match self.map.remove(&request_id) {
                    Some(PendingRequest::Stream(s)) => ClientRoute::FinishStream(s),
                    _ => ClientRoute::Discard,
                }
            },
            FrameType::Request => ClientRoute::Unexpected,
        }
    }

    /// The stream pending under `request_id`, if a stream waits there.
    pub fn stream_for(&self, request_id: u64) -> (r: Option<&S>)
        ensures
            self@.contains_key(request_id) && self@[request_id] is Stream ==> r == Some(
                &self@[request_id]->Stream_0,
            ),
            !(self@.contains_key(request_id) && self@[request_id] is Stream) ==> r is None,
    {
        match self.map.get(&request_id) {
            Some(PendingRequest::Stream(s)) => Some(s),
            _ => None,
        }
    }
}

/// A frame only ever takes calls out of the table, and leaves the calls under
/// every other request id as they were.
pub proof fn lemma_route_touches_only_its_id<U, S>(
    table: Map<u64, PendingRequest<U, S>>,
    frame_type: FrameType,
    request_id: u64,
    other: u64,
)
    requires
        other != request_id,
    ensures
        route_spec(table, frame_type, request_id).0.dom().subset_of(table.dom()),
        route_spec(table, frame_type, request_id).0.contains_key(other) == table.contains_key(other),
        table.contains_key(other) ==> route_spec(table, frame_type, request_id).0[other]
            == table[other],
{
}

/// A frame whose id nothing waits under changes nothing and is dropped
/// (a request frame is reported as unexpected instead).
pub proof fn lemma_route_unknown_id<U, S>(
    table: Map<u64, PendingRequest<U, S>>,
    frame_type: FrameType,
    request_id: u64,
)
    requires
        !table.contains_key(request_id),
    ensures
        route_spec(table, frame_type, request_id).0 == table,
        route_spec(table, frame_type, request_id).1 == (if frame_type == FrameType::Request {
            ClientRoute::<U, S>::Unexpected
        } else {
            ClientRoute::<U, S>::Discard
        }),
{
    assert(table.remove(request_id) =~= table);
}

/// A unary call receives its response once: the response completes it and
/// takes it out of the table, so a second response finds nothing.
pub proof fn lemma_unary_call_answered_once<U, S>(
    table: Map<u64, PendingRequest<U, S>>,
    request_id: u64,
    call: U,
)
    ensures
        ({
            let registered = table.insert(request_id, PendingRequest::Unary(call));
            let (after, route) = route_spec(registered, FrameType::Response, request_id);
            &&& route == ClientRoute::<U, S>::CompleteUnary(call)
            &&& after == table.remove(request_id)
            &&& route_spec(after, FrameType::Response, request_id).1 == ClientRoute::<
                U,
                S,
            >::Discard
        }),
{
    let registered = table.insert(request_id, PendingRequest::<U, S>::Unary(call));
    assert(registered.remove(request_id) =~= table.remove(request_id));
}

/// A streaming call receives every item while it is open; its end (or error)
/// frame hands it the final frame and closes it, after which items for its id
/// are dropped.
pub proof fn lemma_stream_items_until_end<U, S>(
    table: Map<u64, PendingRequest<U, S>>,
    request_id: u64,
    stream: S,
    last: FrameType,
)
    requires
        last == FrameType::StreamEnd || last == FrameType::StreamError,
    ensures
        ({
            let registered = table.insert(request_id, PendingRequest::Stream(stream));
            let (after_item, item_route) = route_spec(registered, FrameType::StreamItem, request_id);
            let (after_end, end_route) = route_spec(after_item, last, request_id);
            &&& item_route == ClientRoute::<U, S>::ForwardItem
            &&& after_item == registered
            &&& end_route == ClientRoute::<U, S>::FinishStream(stream)
            &&& after_end == table.remove(request_id)
            &&& route_spec(after_end, FrameType::StreamItem, request_id).1 == ClientRoute::<
                U,
                S,
            >::Discard
        }),
{
    let registered = table.insert(request_id, PendingRequest::<U, S>::Stream(stream));
    assert(registered.remove(request_id) =~= table.remove(request_id));
}

/// The source of request ids: they start at 1 and count up, wrapping at
/// `u64::MAX` as an atomic `fetch_add` does.
pub struct RequestIds {
    next: u64,
}

impl View for RequestIds {
    type V = u64;

    closed spec fn view(&self) -> u64 {
        self.next
    }
}

/// The id handed out by the `k`-th allocation (counting from 0).
pub open spec fn nth_request_id(k: nat) -> u64 {
    ((1 + k) % 0x1_0000_0000_0000_0000) as u64
}

/// The id that follows `id`.
pub open spec fn following_request_id(id: u64) -> u64 {
    if id == u64::MAX {
        0
    } else {
        (id + 1) as u64
    }
}

impl RequestIds {
    /// A fresh source, whose first id is 1.
    pub fn new() -> (ids: Self)
        ensures
            ids@ == nth_request_id(0),
    {
        RequestIds { next: 1 }
    }

    /// Allocate a new request ID.
    pub fn allocate(&mut self) -> (id: u64)
        ensures
            id == old(self)@,
            final(self)@ == following_request_id(old(self)@),
    {
        let id = self.next;
        self.next = self.next.wrapping_add(1);
        id
    }
}

/// Allocation walks through `nth_request_id`: after `k` allocations the next
/// id is the `k`-th.
pub proof fn lemma_request_ids_advance(k: nat)
    ensures
        following_request_id(nth_request_id(k)) == nth_request_id(k + 1),
{
    let m: int = 0x1_0000_0000_0000_0000;
    let a: int = k + 1int;
    assert(a % m == u64::MAX ==> (a + 1) % m == 0) by (nonlinear_arith)
        requires
            m == 0x1_0000_0000_0000_0000,
            a >= 1,
    ;
    assert(a % m != u64::MAX ==> (a + 1) % m == a % m + 1) by (nonlinear_arith)
        requires
            m == 0x1_0000_0000_0000_0000,
            a >= 1,
    ;
}

/// The ids of any 2^64 consecutive allocations are pairwise distinct.
pub proof fn lemma_request_ids_distinct(i: nat, j: nat)
    requires
        i < j,
        j < i + 0x1_0000_0000_0000_0000,
    ensures
        nth_request_id(i) != nth_request_id(j),
{
    let m: int = 0x1_0000_0000_0000_0000;
    let a: int = i + 1int;
    let b: int = j + 1int;
    assert(a % m != b % m) by (nonlinear_arith)
        requires
            m == 0x1_0000_0000_0000_0000,
            1 <= a < b,
            b < a + m,
    ;
}

/// What a streaming call does with a frame that reaches it.
#[derive(Debug, Clone, Copy, PartialEq, Eq, Structural)]
pub enum StreamStep {
    /// Decode the payload as the next item.
    Item,
    /// The stream ended: stop.
    End,
    /// The stream failed: decode the error message, report it, and stop.
    Error,
    /// Not a stream frame: ignore it.
    Skip,
}

/// What a streaming call does with a frame of this type.
pub open spec fn stream_step_spec(frame_type: FrameType) -> StreamStep {
    match frame_type {
        FrameType::StreamItem => StreamStep::Item,
        FrameType::StreamEnd => StreamStep::End,
        FrameType::StreamError => StreamStep::Error,
        _ => StreamStep::Skip,
    }
}

/// Decide what a streaming call does with a frame.
pub fn stream_step(frame_type: FrameType) -> (step: StreamStep)
    ensures
        step == stream_step_spec(frame_type),
{
    match frame_type {
        FrameType::StreamItem => StreamStep::Item,
        FrameType::StreamEnd => StreamStep::End,
        FrameType::StreamError => StreamStep::Error,
        _ => StreamStep::Skip,
    }
}

/// Whether a streaming call keeps receiving after it has handled a frame:
/// after an item only if the item decoded and reached the stream's reader;
/// never after the stream's end or error; always after a frame it ignores.
pub open spec fn stream_continues_spec(step: StreamStep, item_decoded: bool, item_delivered: bool) -> bool {
    match step {
        StreamStep::Item => item_decoded && item_delivered,
        StreamStep::End => false,
        StreamStep::Error => false,
        StreamStep::Skip => true,
    }
}

/// Decide whether a streaming call keeps receiving after handling a frame.
pub fn stream_continues(step: StreamStep, item_decoded: bool, item_delivered: bool) -> (go_on: bool)
    ensures
        go_on == stream_continues_spec(step, item_decoded, item_delivered),
{
    match step {
        StreamStep::Item => item_decoded && item_delivered,
        StreamStep::End => false,
        StreamStep::Error => false,
        StreamStep::Skip => true,
    }
}

/// A streaming call stops at the first end or error frame that reaches it,
/// and at an item that does not decode or that its reader no longer takes;
/// frames of other types leave it receiving.
pub proof fn lemma_stream_stops(frame_type: FrameType, item_decoded: bool, item_delivered: bool)
    ensures
        (frame_type == FrameType::StreamEnd || frame_type == FrameType::StreamError)
            ==> !stream_continues_spec(stream_step_spec(frame_type), item_decoded, item_delivered),
        frame_type == FrameType::StreamItem ==> (stream_continues_spec(
            stream_step_spec(frame_type),
            item_decoded,
            item_delivered,
        ) <==> item_decoded && item_delivered),
        (frame_type == FrameType::Request || frame_type == FrameType::Response)
            ==> stream_continues_spec(stream_step_spec(frame_type), item_decoded, item_delivered),
{
}

} // verus!
