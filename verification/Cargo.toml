[package]
name = "macsec_packet_analyzer"
version = "0.1.0"
edition = "2021"
publish = false

[dependencies]
axum = "0.7"
byteorder = "1"
chrono = "0.4"
crossbeam = "0.8"
dashmap = "6"
libc = "0.2"
pcap = "*"
pnet = "*"
rusqlite = { version = "*", features = ["bundled"] }
serde = { version = "1", features = ["derive"] }
serde_json = "1"
thiserror = "1"
tokio = { version = "1", features = ["full"] }
