[package]
name = "filedrop"
version = "0.1.0"
edition = "2021"
publish = false

[dependencies]
bytes = "1"
fs2 = "0.4"
futures = "0.3"
humansize = "1"
serde = { version = "1", features = ["derive"] }
serde_json = "1"
tokio = { version = "1", features = ["full"] }
uuid = { version = "0.8", features = ["v4"] }
warp = "0.3"
