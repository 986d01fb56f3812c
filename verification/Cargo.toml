[package]
name = "qscan"
version = "0.1.0"
edition = "2021"
publish = false

[dependencies]
cidr-utils = "*"
clap = { version = "*", features = ["derive"] }
futures = "*"
tokio = { version = "*", features = ["full"] }
trust-dns-resolver = "*"
