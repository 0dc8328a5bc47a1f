use rrpc::frame::{encode_frame, FrameType};
use rrpc::naming::{
    method_id_const_name, method_id_for_index, request_struct_name, rpc_module_name,
    to_pascal_case, to_snake_case,
};
use rrpc::server::{response_frame, server_step, ServerStep};
use rrpc::service::IntoWireResult;

#[test]
fn server_step_per_frame_type() {
    assert!(matches!(server_step(FrameType::Request), ServerStep::Dispatch));
    assert!(matches!(server_step(FrameType::Response), ServerStep::UnexpectedResponse));
    assert!(matches!(server_step(FrameType::StreamItem), ServerStep::StreamFrame));
    assert!(matches!(server_step(FrameType::StreamEnd), ServerStep::StreamFrame));
    assert!(matches!(server_step(FrameType::StreamError), ServerStep::StreamFrame));
}

#[test]
fn response_frame_with_data() {
    let f = response_frame(2, 40, Ok(vec![0, 9]));
    assert_eq!(f, encode_frame(FrameType::Response, 2, 40, &[0, 9]));
}

#[test]
fn response_frame_with_dispatch_error() {
    let f = response_frame(2, 41, Err("Unknown method ID: 9".to_string()));
    let mut payload = vec![1u8, 20];
    payload.extend_from_slice(b"Unknown method ID: 9");
    assert_eq!(f, encode_frame(FrameType::Response, 2, 41, &payload));
}

#[test]
fn snake_case_examples() {
    assert_eq!(to_snake_case("VmManager"), "vm_manager");
    assert_eq!(to_snake_case("Worker"), "worker");
    assert_eq!(to_snake_case("LogService"), "log_service");
    assert_eq!(to_snake_case("HTTPServer"), "h_t_t_p_server");
    assert_eq!(to_snake_case("already_snake"), "already_snake");
    assert_eq!(to_snake_case(""), "");
}

#[test]
fn pascal_case_examples() {
    assert_eq!(to_pascal_case("run_task"), "RunTask");
    assert_eq!(to_pascal_case("list_vms"), "ListVms");
    assert_eq!(to_pascal_case("status"), "Status");
    assert_eq!(to_pascal_case("__a__b"), "AB");
    assert_eq!(to_pascal_case(""), "");
}

#[test]
fn generated_names() {
    assert_eq!(rpc_module_name("VmManager"), "__vm_manager_rpc_impl");
    assert_eq!(method_id_const_name("start_vm"), "START_VM_METHOD_ID");
    assert_eq!(request_struct_name("get_vm_status"), "GetVmStatusRequest");
}

#[test]
fn method_ids_follow_declaration_order() {
    assert_eq!(method_id_for_index(0), 0);
    assert_eq!(method_id_for_index(3), 3);
    assert_eq!(method_id_for_index(65535), 65535);
    assert_eq!(method_id_for_index(70000), 4464);
}

#[test]
fn into_wire_result_keeps_ok_and_formats_err() {
    let ok: Result<u32, String> = Ok(5);
    assert_eq!(ok.into_wire_result(), Ok(5));
    let err: Result<u32, std::fmt::Error> = Err(std::fmt::Error);
    assert_eq!(err.into_wire_result(), Err("an error occurred when formatting an argument".to_string()));
    let err2: Result<(), String> = Err("bad".to_string());
    assert_eq!(err2.into_wire_result(), Err("bad".to_string()));
}
