[package]
name = "iroh_godot"
version = "0.1.0"
edition = "2021"
publish = false

[dependencies]
anyhow = "1"
data-encoding = "2"
fastrand = "2"
flatbuffers = "25"
flexbuffers = "25"
iroh = { version = "1", default-features = false }
log = "0.4"
rand = "0.9"
serde = { version = "1", features = ["derive"] }
tokio = { version = "1", features = ["rt-multi-thread", "sync", "io-util", "macros"] }
