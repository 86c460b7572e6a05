[package]
name = "anolisa"
version = "0.1.0"
edition = "2021"
publish = false

[dependencies]
actix-web = "4"
anyhow = "1"
chrono = "0.4"
clap = { version = "4", features = ["derive"] }
crossbeam-channel = "0.5"
dirs = "5"
hex = "0.4"
libbpf-rs = "0.23"
log = "0.4"
rusqlite = { version = "0.31", features = ["bundled"] }
serde = { version = "1", features = ["derive"] }
serde_json = "1"
sha2 = "0.10"
structopt = "0.3"
tokio = { version = "1", features = ["full"] }
tracing = "0.1"
