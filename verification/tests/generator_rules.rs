use rrpc::client::{stream_continues, stream_step, StreamStep};
use rrpc::frame::FrameType;
use rrpc::naming::{allows_non_send, named_args, to_pascal_case, to_snake_case};
use rrpc::wire::{decode_stream_error, error_message_payload};

#[test]
fn allows_non_send_finds_the_marker() {
    assert!(allows_non_send("?Send"));
    assert!(!allows_non_send("? Send"));
    assert!(allows_non_send("foo, ?Send"));
    assert!(!allows_non_send(""));
    assert!(!allows_non_send("Send"));
    assert!(!allows_non_send("?send"));
}

#[test]
fn named_args_keeps_present_in_order() {
    let kept = named_args(vec![None, Some("a"), None, Some("b"), Some("c")]);
    assert_eq!(kept, vec!["a", "b", "c"]);
    let none: Vec<&str> = named_args(vec![None, None]);
    assert!(none.is_empty());
}

#[test]
fn stream_stops_after_end_error_or_failed_item() {
    assert!(!stream_continues(stream_step(FrameType::StreamEnd), true, true));
    assert!(!stream_continues(stream_step(FrameType::StreamError), true, true));
    assert!(stream_continues(stream_step(FrameType::StreamItem), true, true));
    assert!(!stream_continues(stream_step(FrameType::StreamItem), true, false));
    assert!(!stream_continues(stream_step(FrameType::StreamItem), false, false));
    assert!(stream_continues(stream_step(FrameType::Response), false, false));
    assert!(matches!(stream_step(FrameType::Request), StreamStep::Skip));
}

#[test]
fn error_message_round_trip() {
    for m in ["", "x", "disk full", "ünïcødé ✓", &"y".repeat(300)] {
        let p = error_message_payload(&m.to_string());
        assert_eq!(decode_stream_error(&p), m);
    }
}

#[test]
fn snake_and_pascal_are_idempotent_on_ascii() {
    for s in ["VmManager", "get_vm_status", "HTTPServer", "a__b_", "_x", "Log2Service", ""] {
        let snake = to_snake_case(s);
        assert_eq!(to_snake_case(&snake), snake);
        let pascal = to_pascal_case(s);
        assert_eq!(to_pascal_case(&pascal), pascal);
    }
}

#[test]
fn snake_pascal_inverse_examples() {
    for s in ["get_vm_status", "list_vms", "a", "run_task2", "x_y_z"] {
        assert_eq!(to_snake_case(&to_pascal_case(s)), s);
    }
    for s in ["HTTPServer", "VmManager", "Log2Service", "A", "2Go"] {
        assert_eq!(to_pascal_case(&to_snake_case(s)), s);
    }
}
