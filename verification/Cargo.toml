[package]
name = "n3"
version = "0.1.0"
edition = "2021"
publish = false

[dependencies]
Inflector = "0.11"
glob = "0.3"
serde = { version = "1", features = ["derive"] }
bincode = "1"
chrono = { version = "0.4", features = ["serde"] }
lazy_static = "1"
ctrlc = "3"
get_if_addrs = "0.5"
shared_memory = "0.12"
raw_sync = "0.1"
dialoguer = "0.11"
num-traits = "0.2"
