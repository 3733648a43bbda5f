[package]
name = "aisix"
version = "0.1.0"
edition = "2021"
publish = false

[dependencies]
serde = { version = "1", features = ["derive"] }
serde_json = "1"
percent-encoding = "2"
reqwest = { version = "0.12", default-features = false }
uuid = { version = "1", features = ["v4"] }
http = "1"
clap = { version = "4", features = ["derive"] }
aws-smithy-eventstream = "*"
aws-smithy-types = "*"
bytes = "1"
