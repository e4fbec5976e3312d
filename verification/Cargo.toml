[package]
name = "rdma_daq"
version = "0.1.0"
edition = "2021"
publish = false

[dependencies]
serde = { version = "1", features = ["derive"] }
serde_json = "1"
thiserror = "2"
tokio = { version = "1", features = ["rt", "net", "io-util", "time", "macros"] }
log = "0.4"
tracing = "0.1"
nix = { version = "0.29", features = ["fs", "mman"] }
libc = "0.2"
zerocopy = { version = "0.8", features = ["derive"] }
bon = "3"
