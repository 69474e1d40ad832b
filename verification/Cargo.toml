[package]
name = "har_analyzer"
version = "0.1.0"
edition = "2021"
publish = false

[dependencies]
anyhow = "1"
clap = { version = "4", features = ["derive"] }
dirs = "4"
fastping-rs = "0.2"
har = "*"
log = "0.4"
maxminddb = "0.23"
rayon = "1"
reqwest = { version = "0.11", default-features = false, features = ["blocking", "rustls-tls"] }
tabled = "0.10"
trust-dns-resolver = "0.22"
url = "2"
