[package]
name = "hielements"
version = "0.1.0"
edition = "2021"
publish = false

[dependencies]
regex = "=1.13.1"
serde = { version = "=1.0.229", features = ["derive"] }
serde_json = "=1.0.154"
toml = "=1.1.8"
walkdir = "=2.5.0"
glob = "=0.3.4"
clap = { version = "=4.6.7", features = ["derive"] }
colored = "=3.1.1"
rust-mcp-sdk = { version = "=2.0.0", default-features = false, features = ["server", "macros", "stdio"] }
tokio = { version = "=1.54.1", features = ["full"] }
async-trait = "=0.1.92"
tracing = "=0.1.44"
tracing-subscriber = "=0.3.23"
wasmtime = "=46.0.3"
