[package]
name = "wapm_cli"
version = "0.1.0"
edition = "2021"
publish = false

[dependencies]
semver = "=1.0.28"
shellwords = "=1.1.0"
regex = "=1.13.1"
zstd = "=0.13.4"
wasmparser = "=0.51.4"
toml = "=0.5.11"
serde = { version = "=1.0.229", features = ["derive"] }
serde_json = "1"
time = "0.1"

[dev-dependencies]
wat = "=1.263.0"
