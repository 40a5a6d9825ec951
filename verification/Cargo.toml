[package]
name = "defl"
version = "0.1.0"
edition = "2021"
publish = false

[dependencies]
byteorder = "1"
bytes = "1"
uuid = { version = "1", features = ["v4"] }
serde = { version = "1", features = ["derive"] }
serde_json = "1"
bincode = "1"
log = "0.4"
thiserror = "1"
tokio = { version = "1", features = ["sync", "rt", "time"] }

[dev-dependencies]
prost = "*"
