[package]
name = "integrated_power"
version = "0.1.0"
edition = "2021"
publish = false

[dependencies]
regex = "*"
chrono = "*"
uuid = { version = "*", features = ["v4"] }
num_cpus = "*"
umya-spreadsheet = "*"
tokio = { version = "*", features = ["rt-multi-thread", "sync", "macros", "time"] }
tokio-util = "*"
serde = { version = "*", features = ["derive"] }
serde_json = "*"
toml = "*"
dirs = "*"
tracing = "*"
tracing-subscriber = "*"
