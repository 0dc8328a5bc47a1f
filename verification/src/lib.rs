//! Wire-level logic of an RPC library in which a Rust trait is the API.
//!
//! Every call travels as a frame: a fixed header (frame type, method id,
//! request id, payload length) followed by the payload bytes. This crate holds
//! the verified parts of that protocol: the header codec, message framing, the
//! error payloads, the client's routing of incoming frames to pending calls,
//! the server's handling of incoming frames, and the naming rules that the
//! service generator follows.

pub mod frame;
pub mod wire;
pub mod client;
pub mod server;
pub mod naming;
pub mod service;
