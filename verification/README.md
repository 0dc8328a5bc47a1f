# rrpc

Rust-to-Rust RPC in which a trait is the API. This crate holds the protocol
logic, verified with Verus; `app/` holds the tokio runtime and the service
generator that drive it.

- `src/frame.rs` — frame types, the 15-byte header codec, whole-frame encoding,
  and the round-trip laws.
- `src/wire.rs` — error payloads in postcard's encoding, the stated decoding of
  strings, stream error frames, and the laws that an error reaches a stream's
  reader unchanged.
- `src/client.rs` — request ids, the table of pending calls, routing of incoming
  frames, and the laws that relate them.
- `src/server.rs` — the server's handling of incoming frames and its response
  frames; the law that a response answers its request.
- `src/naming.rs` — names, method ids, kept arguments and `?Send` of generated
  service code, and the ASCII laws relating snake_case and PascalCase.
- `src/service.rs` — the conversion of a method's result into wire form.
