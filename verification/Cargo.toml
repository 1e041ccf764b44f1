[package]
name = "pdw_rust"
version = "9.11.0"
edition = "2021"
publish = false

[dependencies]
rusqlite = { version = "*", features = ["bundled"] }
chrono = "*"
csv = "*"
calamine = "*"
rust_xlsxwriter = "*"
serde = { version = "*", features = ["derive"] }
serde_yaml = "*"
toml = "*"
rust-ini = "*"
clap = { version = "*", features = ["derive"] }
log = "*"
env_logger = "*"
hostname = "*"
anyhow = "*"
flate2 = "*"

[dev-dependencies]
serde_json = "*"
tempfile = "*"
