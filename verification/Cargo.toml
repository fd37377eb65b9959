[package]
name = "session_hub"
version = "0.1.0"
edition = "2021"
publish = false

[dependencies]
crossterm = "=0.29.0"
ctrlc = "=3.5.2"
interprocess = "=2.4.7"
ratatui = { version = "0.30", default-features = false }
tokio = { version = "=1.54.1", features = ["rt", "macros", "sync", "time"] }
tracing = "=0.1.44"
