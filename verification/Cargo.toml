[package]
name = "edgedb_upgrade"
version = "0.1.0"
edition = "2021"
publish = false

[dependencies]
anyhow = "1.0"
async-std = "1.6"
edgedb-client = { version = "=0.3.0", features = ["admin_socket", "unstable"] }
humantime-serde = "1.0"
linked-hash-map = "=0.5.6"
log = "0.4"
serde = { version = "1.0", features = ["derive"] }
serde_json = "1.0"
