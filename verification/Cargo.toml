[package]
name = "mago_server"
version = "0.1.0"
edition = "2021"
publish = false

[dependencies]
foldhash = "*"
memchr = "2"
schemars = "1"
serde = { version = "1", features = ["derive"] }
tokio = { version = "1", features = ["rt", "time", "sync"] }
tower-lsp-server = "*"
tracing = "0.1"
xxhash-rust = { version = "0.8", features = ["xxh3"] }
