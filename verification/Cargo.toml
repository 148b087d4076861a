[package]
name = "spincoater"
version = "0.1.0"
edition = "2021"
publish = false

[dependencies]
bytes = "1"
embassy-sync = "*"
embassy-futures = "*"
tokio = { version = "1", features = ["full"] }
futures = "0.3"
crossterm = { version = "*", features = ["event-stream"] }
ratatui = "*"
chrono = "0.4"
color-eyre = "0.6"
ringbuffer = "*"
cfg-if = "1"

[dev-dependencies]
postcard = { version = "1", features = ["use-std"] }
serde = "1"
