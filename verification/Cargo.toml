[package]
name = "isla"
version = "0.1.0"
edition = "2021"
publish = false

[dependencies]
smallvec = "1"
compact_str = "*"
uuid = { version = "1", features = ["v4"] }
time = "0.3"
serde = { version = "1", features = ["derive"] }
serde_json = "1"
thiserror = "*"
