[package]
name = "ffxiv_act_linux"
version = "0.1.0"
edition = "2021"
publish = false

[dependencies]
bincode = "1"
byteorder = "1"
etherparse = "0.9"
flate2 = "1"
hex = "0.4"
pcap = "0.7"
proc-maps = "0.1"
read-process-memory = "0.1"
regex = "1"
serde = { version = "1", features = ["derive"] }
serde_json = "1"
