[package]
name = "feiq_v2"
version = "0.1.0"
edition = "2021"
publish = false

[dependencies]
encoding_rs = "0.8"
chrono = "0.4"
tokio = { version = "1", features = ["full"] }
rusqlite = { version = "*", features = ["bundled"] }
clap = { version = "4", features = ["derive"] }
async-trait = "0.1"
