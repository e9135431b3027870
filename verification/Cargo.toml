[package]
name = "latch"
version = "0.6.0"
edition = "2021"
publish = false

[dependencies]
openssl = "0.10"
serde = { version = "1", features = ["derive"] }
serde_json = "1"
tiny_http = "0.12"
toml = "0.8"
webauthn-rs = "0.5"
