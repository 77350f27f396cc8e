[package]
name = "drift"
version = "0.1.0"
edition = "2021"
publish = false

[dependencies]
ed25519-dalek = "3"
rand = "0.9"
lru = "0.7"
uuid = { version = "1", features = ["v4"] }
time = "0.3"
serde = { version = "1", features = ["derive"] }
serde_json = "1"
toml = "0.8"
tokio = { version = "1", features = ["rt-multi-thread", "macros", "sync", "time", "process", "io-util", "signal"] }
clap = { version = "4", features = ["derive"] }
anyhow = "1"
tracing = "0.1"
tracing-subscriber = "0.3"
sha2 = "0.10"
iroh = { version = "1", default-features = false }
async-trait = "0.1"
