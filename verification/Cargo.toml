[package]
name = "censorlab"
version = "0.1.0"
edition = "2021"
publish = false

[dependencies]
clap = { version = "*", features = ["derive"] }
serde = { version = "*", features = ["derive"] }
serde_json = "*"
toml = "*"
thiserror = "*"
smoltcp = { version = "*", features = ["std", "phy-raw_socket", "medium-ethernet", "medium-ip", "proto-ipv4", "proto-ipv6"] }
iptables = "*"
procfs = "*"
mac_address = "*"
get_if_addrs = "*"
nfq = "*"
libc = "*"
