[package]
name = "qingpan"
version = "0.1.0"
edition = "2021"
publish = false

[dependencies]
sha2 = "0.10"
uuid = { version = "1", features = ["v4"] }
serde = { version = "1", features = ["derive"] }
serde_json = "1"
walkdir = "2"
dirs = "*"
parking_lot = "0.12"
sysinfo = "*"
rayon = "1"
