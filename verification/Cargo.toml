[package]
name = "ic-wasm"
version = "0.1.0"
edition = "2021"
publish = false

[dependencies]
anyhow = "=1.0.104"
candid = "=0.10.39"
candid_parser = "=0.4.1"
clap = { version = "=4.6.7", features = ["derive", "cargo"] }
flate2 = "1"
parse-display = "=0.11.0"
rustc-demangle = "=0.1.28"
serde = { version = "=1.0.229", features = ["derive"] }
serde_json = "=1.0.154"
tempfile = "=3.27.0"
thiserror = "=1.0.69"
walrus = "=0.27.3"
