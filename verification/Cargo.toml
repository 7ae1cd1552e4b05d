[package]
name = "node_runtime"
version = "0.1.0"
edition = "2021"
publish = false

[dependencies]
tokio = { version = "1", features = ["rt-multi-thread", "io-util", "io-std", "macros", "sync", "time"] }
