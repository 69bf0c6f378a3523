[package]
name = "supervised"
version = "0.3.0"
edition = "2021"
publish = false

[dependencies]
thiserror = "2"
tokio = { version = "1", default-features = false, features = ["rt", "rt-multi-thread", "signal", "sync", "time"] }
tokio-util = { version = "0.7", default-features = false, features = ["rt"] }
tracing = { version = "0.1", default-features = false, features = ["attributes", "std"] }
