[package]
name = "cargo_compat"
version = "0.1.0"
edition = "2021"
publish = false

[dependencies]
cargo-lock = "*"
clap = { version = "*", features = ["derive"] }
crates_io_api = "*"
dirs = "*"
owo-colors = "*"
semver = "*"
serde = { version = "*", features = ["derive"] }
serde_cbor = "*"
thiserror = "*"
