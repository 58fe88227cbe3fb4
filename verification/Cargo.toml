[package]
name = "geyserfeed"
version = "0.1.0"
edition = "2021"
publish = false

[dependencies]
bs58 = "*"
anyhow = "*"
dotenv = "*"
futures = "*"
tokio = { version = "*", features = ["full"] }
tokio-stream = "*"
tracing = "*"
tracing-subscriber = "*"
yellowstone-grpc-client = "*"
yellowstone-grpc-proto = "*"
