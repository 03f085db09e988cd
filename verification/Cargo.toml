[package]
name = "moonbridge"
version = "0.1.0"
edition = "2021"
publish = false

[dependencies]
serde = { version = "1", features = ["derive"] }
serde_json = "1"
sha2 = "0.10"
hmac = "0.12"
base64 = "0.22"
mlua = { version = "0.10", features = ["lua54", "vendored", "async", "send", "serialize"] }
tokio = { version = "1", features = ["sync", "macros", "rt"] }
async-trait = "0.1"
dirs = "5"
tracing = "0.1"
thiserror = "1"
http = "1"
