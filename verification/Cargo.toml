[package]
name = "zset_store"
version = "0.1.0"
edition = "2021"
publish = false

[dependencies]
chrono = "0.4"
csv = "1"
rand = "0.8"
textwrap = "0.16"
log = "0.4"
serde = { version = "1", features = ["derive"] }
rkyv = "0.7"
size-of = "0.1"

[dev-dependencies]
serde_json = "1"
