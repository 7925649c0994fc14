[package]
name = "khora"
version = "0.1.0"
edition = "2021"
publish = false

[dependencies]
chromiumoxide = "*"
clap = { version = "4", features = ["derive", "env"] }
futures = "0.3"
libc = "0.2"
serde = { version = "1", features = ["derive"] }
serde_json = "1"
thiserror = "*"
tokio = { version = "1", features = ["full"] }
tracing = "0.1"
tracing-subscriber = { version = "0.3", features = ["env-filter"] }
which = "*"
