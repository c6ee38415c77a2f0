[package]
name = "net_topology"
version = "0.1.0"
edition = "2021"
publish = false

[dependencies]
regex = "1"
ipaddress = "0.1"
dot-writer = "0.1"
dns-lookup = "1"
clap = { version = "3", features = ["derive"] }
serde = { version = "1", features = ["derive"] }
serde_json = "1"
log = "0.4"
simplelog = "0.12"
