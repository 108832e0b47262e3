[package]
name = "ph-record"
version = "0.1.0"
edition = "2021"
publish = false

[dependencies]
rand = "0.8"
trust-dns-resolver = "0.23"
