use rrpc::client::{stream_step, ClientRoute, PendingRequest, PendingTable, RequestIds, StreamStep};
use rrpc::frame::FrameType;

fn unary_of(r: ClientRoute<u32, &'static str>) -> Option<u32> {
    match r {
        ClientRoute::CompleteUnary(u) => Some(u),
        _ => None,
    }
}

#[test]
fn unary_response_completes_once() {
    let mut t: PendingTable<u32, &str> = PendingTable::new();
    t.register(1, PendingRequest::Unary(100));
    assert_eq!(unary_of(t.route(FrameType::Response, 1)), Some(100));
    assert!(matches!(t.route(FrameType::Response, 1), ClientRoute::Discard));
}

#[test]
fn stream_items_forward_until_end() {
    let mut t: PendingTable<u32, &str> = PendingTable::new();
    t.register(7, PendingRequest::Stream("s7"));
    assert!(matches!(t.route(FrameType::StreamItem, 7), ClientRoute::ForwardItem));
    assert_eq!(t.stream_for(7), Some(&"s7"));
    assert!(matches!(t.route(FrameType::StreamItem, 7), ClientRoute::ForwardItem));
    assert!(matches!(t.route(FrameType::StreamEnd, 7), ClientRoute::FinishStream("s7")));
    assert_eq!(t.stream_for(7), None);
    assert!(matches!(t.route(FrameType::StreamItem, 7), ClientRoute::Discard));
}

#[test]
fn stream_error_finishes_stream() {
    let mut t: PendingTable<u32, &str> = PendingTable::new();
    t.register(8, PendingRequest::Stream("s8"));
    assert!(matches!(t.route(FrameType::StreamError, 8), ClientRoute::FinishStream("s8")));
    assert!(matches!(t.route(FrameType::StreamEnd, 8), ClientRoute::Discard));
}

#[test]
fn response_for_stream_drops_the_stream() {
    let mut t: PendingTable<u32, &str> = PendingTable::new();
    t.register(3, PendingRequest::Stream("s3"));
    assert!(matches!(t.route(FrameType::Response, 3), ClientRoute::Discard));
    assert_eq!(t.stream_for(3), None);
}

#[test]
fn end_for_unary_drops_the_call() {
    let mut t: PendingTable<u32, &str> = PendingTable::new();
    t.register(4, PendingRequest::Unary(44));
    assert!(matches!(t.route(FrameType::StreamEnd, 4), ClientRoute::Discard));
    assert!(matches!(t.route(FrameType::Response, 4), ClientRoute::Discard));
}

#[test]
fn item_for_unary_leaves_the_call() {
    let mut t: PendingTable<u32, &str> = PendingTable::new();
    t.register(5, PendingRequest::Unary(55));
    assert!(matches!(t.route(FrameType::StreamItem, 5), ClientRoute::Discard));
    assert_eq!(unary_of(t.route(FrameType::Response, 5)), Some(55));
}

#[test]
fn request_frame_is_unexpected() {
    let mut t: PendingTable<u32, &str> = PendingTable::new();
    t.register(6, PendingRequest::Unary(66));
    assert!(matches!(t.route(FrameType::Request, 6), ClientRoute::Unexpected));
    assert_eq!(unary_of(t.route(FrameType::Response, 6)), Some(66));
}

#[test]
fn unknown_id_is_discarded_and_others_stay() {
    let mut t: PendingTable<u32, &str> = PendingTable::new();
    t.register(1, PendingRequest::Unary(10));
    t.register(2, PendingRequest::Stream("two"));
    assert!(matches!(t.route(FrameType::Response, 99), ClientRoute::Discard));
    assert!(matches!(t.route(FrameType::StreamEnd, 99), ClientRoute::Discard));
    assert_eq!(t.stream_for(2), Some(&"two"));
    assert_eq!(unary_of(t.route(FrameType::Response, 1)), Some(10));
}

#[test]
fn register_replaces_previous_entry() {
    let mut t: PendingTable<u32, &str> = PendingTable::new();
    t.register(1, PendingRequest::Unary(10));
    t.register(1, PendingRequest::Unary(11));
    assert_eq!(unary_of(t.route(FrameType::Response, 1)), Some(11));
}

#[test]
fn request_ids_start_at_one_and_count_up() {
    let mut ids = RequestIds::new();
    assert_eq!(ids.allocate(), 1);
    assert_eq!(ids.allocate(), 2);
    assert_eq!(ids.allocate(), 3);
}

#[test]
fn stream_step_per_frame_type() {
    assert!(matches!(stream_step(FrameType::StreamItem), StreamStep::Item));
    assert!(matches!(stream_step(FrameType::StreamEnd), StreamStep::End));
    assert!(matches!(stream_step(FrameType::StreamError), StreamStep::Error));
    assert!(matches!(stream_step(FrameType::Request), StreamStep::Skip));
    assert!(matches!(stream_step(FrameType::Response), StreamStep::Skip));
}
