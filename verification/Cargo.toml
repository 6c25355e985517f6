[package]
name = "pheme_va"
version = "0.1.0"
edition = "2021"
publish = false

[dependencies]
anyhow = "*"
axum = "*"
clap = { version = "*", features = ["derive", "env"] }
hound = "*"
rustfft = "*"
serde = { version = "*", features = ["derive"] }
serde_json = "*"
sysinfo = "*"
thiserror = "*"
tokio = { version = "*", features = ["rt-multi-thread", "macros", "net"] }
toml = "*"
whisper-rs = "*"
