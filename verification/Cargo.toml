[package]
name = "connection-tracking"
version = "0.1.0"
edition = "2021"
publish = false

[dependencies]
http = "=1.5.0"
log = "=0.4.35"
pingora-http = "=0.9.1"
tokio = { version = "1", features = ["time"] }
