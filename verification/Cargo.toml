[package]
name = "courtyard_core"
version = "0.1.0"
edition = "2021"
publish = false

[dependencies]
chrono = "*"
libc = "*"
serde = { version = "*", features = ["derive"] }
serde_json = "*"
tokio = { version = "*", features = ["process", "rt-multi-thread", "io-util", "macros"] }
uuid = { version = "*", features = ["v4"] }
