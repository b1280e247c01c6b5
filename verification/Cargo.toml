[package]
name = "clash_verge"
version = "0.1.0"
edition = "2021"
publish = false

[dependencies]
anyhow = "1"
log = "0.4"
serde = { version = "1", features = ["derive"] }
serde_json = "1"
serde_yaml = "0.9"
percent-encoding = "2"
nanoid = "0.4"
port_scanner = "0.1"
chrono = "0.4"
once_cell = "1"
parking_lot = "0.12"
reqwest = { version = "0.11", default-features = false, features = ["json", "rustls-tls"] }
tokio = { version = "1", features = ["time", "net", "rt-multi-thread", "macros"] }
tiny_http = "0.12"
sysinfo = "0.29"
runas = "1"
deelevate = "0.2"
windows-service = "0.6"
