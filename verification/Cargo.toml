[package]
name = "chat_engine"
version = "0.1.0"
edition = "2021"
publish = false

[dependencies]
futures-util = "0.3"
rand = "0.8"
rust-embed = "8"
serde_json = "1"
tokio = { version = "1", features = ["macros", "rt-multi-thread", "sync", "time"] }
uuid = { version = "1", features = ["v4"] }
warp = "0.3"
warp-embed = "*"
