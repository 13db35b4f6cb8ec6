[package]
name = "spyglass"
version = "0.1.0"
edition = "2021"
publish = false

[dependencies]
url = "=2.5.8"
dashmap = "=5.5.3"
chrono = { version = "=0.4.45", default-features = false, features = ["clock", "std"] }
directories = "=4.0.1"
serde = { version = "=1.0.229", features = ["derive"] }
ron = "=0.7.1"
anyhow = "=1.0.104"
log = "=0.4.34"
tracing = "=0.1.44"
jsonrpc-core = "=18.0.0"
tokio = { version = "=1.54.1", features = ["rt", "sync"] }
sea-orm = { version = "0.8", default-features = false, features = ["macros", "with-chrono"] }
wasmer = "2.3"
wasmer-wasi = "2.3"
yew = "0.19"
wasm-bindgen-futures = "0.4"
