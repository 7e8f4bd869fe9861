[package]
name = "lastgasp"
version = "0.1.0"
edition = "2021"
publish = false

[dependencies]
chrono = "0.4"
aws-config = "*"
aws-sdk-cloudwatchlogs = "*"
clap = { version = "4", features = ["derive"] }
tokio = { version = "1", features = ["macros", "rt-multi-thread"] }
