[package]
name = "multitrack_recorder"
version = "0.1.0"
edition = "2021"
publish = false

[dependencies]
chrono = "0.4"
uuid = { version = "1", features = ["v4"] }
rand = "0.9"
hex = "0.4"
crossbeam = "0.8"
parking_lot = "0.12"

[dev-dependencies]
serde_json = "1"
