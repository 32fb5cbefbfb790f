[package]
name = "pinch"
version = "0.1.0"
edition = "2021"
publish = false

[dependencies]
shlex = "1"
ratatui = "0.29"
crossterm = { version = "0.28", features = ["event-stream"] }
portable-pty = "0.8"
tokio = { version = "1", features = ["full"] }
vt100 = "0.15"
tui-term = "0.2"
ansi-to-tui = "7"
notify = "8"
clap = { version = "4", features = ["derive", "env"] }
clap_complete = "4"
serde = { version = "1", features = ["derive"] }
serde_json = "1"
serde_yaml = "0.9"
libc = "0.2"
futures = "0.3"
