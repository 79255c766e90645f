[package]
name = "subnet_monitor"
version = "0.1.0"
edition = "2021"
publish = false

[dependencies]
ctrlc = "3"
hyper = { version = "0.14", features = ["server", "http1", "tcp"] }
pcap = "2"
pnet = "0.35"
prometheus = "0.13"
tokio = { version = "1", features = ["rt-multi-thread"] }
