[package]
name = "unifi"
version = "0.1.0"
edition = "2021"
publish = false

[dependencies]
hex = "0.4"
serde = { version = "1", features = ["derive"] }
serde_json = "1"
clap = { version = "4", features = ["derive"] }
plist = "1"
libc = "0.2"
pcap = "2"
objc = "0.2"
thiserror = "1"
