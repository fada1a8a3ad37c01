[package]
name = "nitro_attestation"
version = "0.1.0"
edition = "2021"
publish = false

[dependencies]
hex = "0.4"
alloy-primitives = "1"
alloy-sol-types = "1"
anyhow = "1"
serde = { version = "1", features = ["derive"] }
serde_json = "1"
serde-wasm-bindgen = "0.6"
wasm-bindgen = "0.2"
clap = { version = "4", features = ["derive", "env"] }
dotenvy = "0.15"
tracing = "0.1"
tracing-subscriber = { version = "0.3", features = ["env-filter"] }
lazy_static = "1"
