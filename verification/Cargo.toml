[package]
name = "xxfunc"
version = "0.1.0"
edition = "2021"
publish = false

[dependencies]
serde_json = "=1.0.154"
toml = "=1.1.8"
serde = { version = "1", features = ["derive"] }
clap = { version = "4", features = ["derive"] }
eyre = "0.6"
tokio = { version = "1", features = ["rt-multi-thread", "macros", "sync", "net", "time"] }
futures = "0.3"
parking_lot = "0.12"
tracing = "0.1"
tracing-subscriber = { version = "0.3", features = ["env-filter"] }
r2d2 = "0.8"
r2d2_sqlite = { version = "=0.35.0", features = ["bundled"] }
wasmtime = "=47.0.4"
wasmtime-wasi = "=47.0.4"
axum = { version = "*", features = ["multipart"] }
reqwest = { version = "*", default-features = false, features = ["blocking", "multipart", "json"] }
syn = { version = "2", features = ["full"] }
quote = "1"
proc-macro2 = "1"
