[package]
name = "tcast"
version = "0.2.0"
edition = "2021"
publish = false

[dependencies]
anyhow = "=1.0.104"
axum = { version = "=0.8.9", features = ["ws"] }
bytes = "=1.12.1"
clap = { version = "=4.6.7", features = ["derive", "env"] }
cpal = "0.15"
crossterm = { version = "=0.29.0", features = ["event-stream"] }
dirs = "=6.0.0"
futures-util = "=0.3.34"
nanoid = "=0.4.0"
portable-pty = "=0.9.0"
ratatui = { version = "=0.30.2", default-features = false, features = ["crossterm"] }
ringbuf = "=0.4.8"
rmp-serde = "=1.3.1"
self_update = { version = "=0.42.0", default-features = false }
serde = { version = "=1.0.229", features = ["derive"] }
serde_bytes = "=0.11.19"
serde_json = "=1.0.154"
tokio = { version = "=1.54.1", features = ["full"] }
tokio-tungstenite = { version = "=0.28.0", features = ["native-tls"] }
toml = "=0.9.12"
tracing = "=0.1.44"
tracing-subscriber = { version = "=0.3.23", features = ["env-filter"] }
tui-term = "=0.3.4"
vt100 = "=0.16.2"
windows-sys = { version = "=0.61.2", features = ["Win32_Foundation", "Win32_Storage_FileSystem", "Win32_System_Console", "Win32_System_IO"] }
