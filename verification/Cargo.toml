[package]
name = "speech_protocol"
version = "0.1.0"
edition = "2021"
publish = false

[dependencies]
serde_json = "=1.0.151"
tokio-websockets = { version = "=0.13.3", features = ["client", "fastrand", "sha1_smol"] }
tokio = { version = "=1.53.2", features = ["rt", "net", "macros"] }
futures-util = { version = "=0.3.34", features = ["sink"] }
