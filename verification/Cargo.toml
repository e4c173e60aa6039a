[package]
name = "contec-protocol"
version = "0.1.0"
edition = "2021"
publish = false

[dependencies]
anyhow = "1"
chrono = "0.4"
clap = { version = "3.2", features = ["derive"] }
crossterm = { version = "0.25", features = ["event-stream"] }
csv-async = "1.2"
dialoguer = "0.10"
futures = "0.3"
snafu = "0.7"
tokio = { version = "1", features = ["macros", "rt", "time", "fs"] }
tokio-serial = "5.4"
tokio-util = { version = "0.7", features = ["compat"] }
tui = "0.19"
