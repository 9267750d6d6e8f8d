[package]
name = "atomic_core"
version = "0.1.0"
edition = "2021"
publish = false

[dependencies]
chrono = { version = "0.4", default-features = false, features = ["std", "clock"] }
sha2 = "0.10"
uuid = { version = "1", features = ["v4"] }
iana-time-zone = "0.1"
serde = { version = "1", features = ["derive"] }
serde_json = "1"
