[package]
name = "rrpc"
version = "0.1.0"
edition = "2021"
publish = false

[dependencies]
anyhow = "1"
async-trait = "0.1"
bytes = "1"
futures-core = "0.3"
postcard = { version = "1", default-features = false, features = ["alloc"] }
proc-macro2 = "1"
quote = "1"
serde = { version = "1", features = ["derive"] }
syn = { version = "2", features = ["full"] }
tokio = { version = "1", features = ["io-util", "net", "rt", "sync"] }
