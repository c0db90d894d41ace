[package]
name = "cargo-policy"
version = "0.1.0"
edition = "2021"
publish = false

[dependencies]
camino = "=1.2.6"
cargo_metadata = "=0.23.1"
clap = { version = "=4.6.7", features = ["derive"] }
globset = "=0.4.21"
ignore = "=0.4.34"
rustix = { version = "=1.1.6", features = ["process"] }
serde = { version = "=1.0.229", features = ["derive"] }
serde_json = "=1.0.154"
tempfile = "=3.27.0"
thiserror = "=2.0.21"
toml = "=1.1.8"
