[package]
name = "tw_widgets"
version = "0.1.0"
edition = "2021"
publish = false

[dependencies]
serde_json = "1"
crossterm = "0.28"
ratatui = "0.29"
rand = "0.8"
reqwest = { version = "0.12", default-features = false, features = ["blocking", "rustls-tls"] }
sysinfo = "0.32"
chrono = "0.4"
tokio = { version = "1", features = ["rt-multi-thread", "macros"] }
