[package]
name = "runger"
version = "0.1.0"
edition = "2021"
publish = false

[dependencies]
indexmap = "*"
ahash = "*"
clap = { version = "*", features = ["derive"] }
crossterm = "*"
ratatui = "*"
tokio = { version = "*", features = ["rt", "fs", "time", "macros"] }
futures = "*"
mlua = { version = "*", features = ["lua54", "vendored"] }
dirs = "*"
thiserror = "*"
tracing = "*"
tracing-appender = "*"
tracing-subscriber = { version = "*", features = ["env-filter"] }
