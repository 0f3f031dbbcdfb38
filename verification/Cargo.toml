[package]
name = "kapollo"
version = "0.1.0"
edition = "2021"
publish = false

[dependencies]
base64 = "0.22"
vte = "0.13"
crossterm = "0.28"
ratatui = "0.29"
portable-pty = "0.8"
toml = "0.8"
serde = { version = "1", features = ["derive"] }
anyhow = "1"
thiserror = "1"
arboard = { version = "3", default-features = false }
directories = "5"
libc = "0.2"
tracing = "0.1"
tracing-subscriber = { version = "0.3", features = ["env-filter"] }
tracing-appender = "0.2"
