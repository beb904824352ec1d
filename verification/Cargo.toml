[package]
name = "linear_motion"
version = "0.1.0"
edition = "2021"
publish = false

[dependencies]
chrono = "*"
uuid = { version = "*", features = ["v4"] }
clap = { version = "*", features = ["derive"] }
serde = { version = "*", features = ["derive"] }
serde_json = "*"
serde_path_to_error = "*"
thiserror = "*"
tokio = { version = "*", features = ["rt-multi-thread", "macros", "fs"] }
tracing = "*"
tracing-subscriber = "*"
directories = "*"
fjall = "*"
reqwest = { version = "*", default-features = false, features = ["json", "rustls-tls"] }
reqwest-middleware = "*"
reqwest-retry = "*"
governor = "*"
futures = "*"
