[package]
name = "sony-protocol"
version = "0.1.0"
edition = "2021"
publish = false

[dependencies]
anyhow = "1"
bluer = { version = "0.17", features = ["bluetoothd", "rfcomm"] }
crossterm = { version = "0.28", features = ["event-stream"] }
futures = "0.3"
log = "0.4"
ratatui = "0.28"
tokio = { version = "1", features = ["full"] }
tokio-stream = { version = "0.1", features = ["sync"] }
tracing = "0.1"
tracing-subscriber = "0.3"
tui-logger = { version = "0.12", features = ["tracing-support"] }
uuid = "1"
