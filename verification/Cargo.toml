[package]
name = "dns_encoding"
version = "0.1.0"
edition = "2021"
publish = false

[dependencies]
base32 = "*"
rand = "*"
trust-dns-proto = "*"
structopt = "*"
log = "*"
env_logger = "*"
