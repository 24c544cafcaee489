[package]
name = "bubble"
version = "0.1.0"
edition = "2021"
publish = false

[dependencies]
anyhow = "1"
clap = { version = "4", features = ["derive"] }
flume = "0.11"
rmp-serde = "1"
serde = { version = "1", features = ["derive"] }
toml = "0.8"
zenoh = { version = "1", default-features = false, features = ["transport_tcp"] }
