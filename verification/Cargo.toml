[package]
name = "meow"
version = "0.1.0"
edition = "2021"
publish = false

[dependencies]
async-trait = "0.1"
parking_lot = "0.12"
serde = { version = "1", features = ["derive"] }
smallvec = "1"
time = { version = "0.3", features = ["formatting"] }
tokio = { version = "1", features = ["net", "sync", "rt", "rt-multi-thread", "io-util"] }
tracing = "0.1"
