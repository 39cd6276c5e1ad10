[package]
name = "taskstats"
version = "0.1.0"
edition = "2021"
publish = false

[dependencies]
anyhow = "1"
byteorder = "1"
netlink-packet-utils = "0.5"
