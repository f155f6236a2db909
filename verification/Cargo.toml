[package]
name = "vireon"
version = "0.1.0"
edition = "2021"
publish = false

[dependencies]
bytes = "1"
tokio = { version = "1", features = ["sync", "rt", "rt-multi-thread", "macros", "net", "time", "signal"] }
quiche = "0.22"
clap = { version = "4", features = ["derive", "env"] }
thiserror = "1"
tracing = "0.1"
