[package]
name = "room_timeline"
version = "0.1.0"
edition = "2021"
publish = false

[dependencies]
futures-signals = "*"
indexmap = "*"
serde_json = "*"
