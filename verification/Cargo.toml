[package]
name = "bancho_irc"
version = "0.1.0"
edition = "2021"
publish = false

[dependencies]
anyhow = "*"
futures = "*"
irc = { version = "*", default-features = false }
thiserror = "*"
tokio = { version = "*", features = ["rt", "rt-multi-thread", "sync", "time", "macros"] }
tracing = "*"
