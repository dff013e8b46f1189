[package]
name = "ayphr"
version = "0.1.0"
edition = "2021"
publish = false

[dependencies]
anyhow = "=1.0.104"
btleplug = "=0.11.8"
futures-util = "=0.3.34"
heapless = "=0.8.0"
log = "=0.4.35"
serde = { version = "=1.0.229", features = ["derive"] }
serialport = { version = "=4.10.1", default-features = false }
tokio = { version = "=1.54.1", features = ["time", "rt", "sync", "macros"] }
tracing = "=0.1.44"
ureq = "2"
uuid = "=1.29.0"
