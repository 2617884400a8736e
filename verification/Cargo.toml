[package]
name = "amadeus-mcp"
version = "0.1.0"
edition = "2021"
publish = false

[dependencies]
anyhow = "1"
bls12_381 = "0.8"
blst = "0.3"
bs58 = "0.5"
group = "0.13"
hex = "0.4"
js-sys = "0.3"
rmcp = { version = "*", features = ["server", "macros", "transport-io"] }
serde = { version = "1", features = ["derive"] }
serde_bytes = "0.11"
serde_json = "1"
sha2 = "0.10"
tokio = { version = "1", features = ["macros", "rt-multi-thread", "io-std"] }
tracing = "0.1"
tracing-subscriber = { version = "0.3", features = ["env-filter"] }
validator = { version = "*", features = ["derive"] }
worker = "*"
