[package]
name = "dmnote_editor_engine"
version = "0.1.0"
edition = "2021"
publish = false

[dependencies]
base64 = "0.22"
uuid = { version = "1", features = ["v4"] }
imagesize = "0.13"
infer = "0.16"
quick-xml = "0.37"
serde = { version = "1", features = ["derive"] }
serde_json = "1"
parking_lot = "0.12"
anyhow = "1"
log = "0.4"
