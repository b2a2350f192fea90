[package]
name = "python_executor"
version = "0.1.0"
edition = "2021"
publish = false

[dependencies]
bollard = "0.15"
http = "0.2"
prost = "0.12"
serde = { version = "1", features = ["derive"] }
serde_json = "1"
thiserror = "1"
tokio = { version = "1", features = ["macros", "rt-multi-thread", "io-std", "io-util", "sync", "time"] }
tokio-stream = "0.1"
tonic = "0.10"
tonic-reflection = "0.10"
