[package]
name = "shroom"
version = "0.1.0"
edition = "2021"
publish = false

[dependencies]
nt-time = "=0.15.0"
bytes = "=1.12.1"
either = "=1.19.0"
chrono = "=0.4.45"
anyhow = "1"
tokio = { version = "1", default-features = false, features = ["sync", "time", "rt"] }
