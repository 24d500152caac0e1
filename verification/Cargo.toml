[package]
name = "ockam"
version = "0.1.0"
edition = "2021"
publish = false

[dependencies]
rand = "0.8"
minicbor = { version = "*", features = ["derive", "std"] }
serde = { version = "1", features = ["derive"] }
serde_json = "1"
tokio = { version = "1", features = ["rt", "sync", "time", "macros", "net", "io-util"] }
futures = "0.3"
once_cell = "1"

[dev-dependencies]
time = { version = "0.3", features = ["formatting"] }
