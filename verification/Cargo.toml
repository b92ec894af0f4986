[package]
name = "tw_nhi_icc_service"
version = "0.1.0"
edition = "2021"
publish = false

[dependencies]
anyhow = "1"
axum = { version = "0.6", features = ["ws"] }
clap = { version = "4", features = ["derive"] }
concat-with = "0.2"
enable-ansi-support = "0.2"
encoding_rs = "0.8"
futures = "0.3"
once_cell = "1"
pcsc = "2"
serde = { version = "1", features = ["derive"] }
serde_json = "1"
terminal_size = "*"
tokio = { version = "1", features = ["rt-multi-thread", "macros", "sync", "time", "net"] }
tower-http = { version = "0.4", features = ["cors", "set-header", "trace"] }
tracing = "0.1"
tracing-subscriber = { version = "0.3", features = ["env-filter"] }
