[package]
name = "dockerbackup"
version = "0.3.0"
edition = "2021"
publish = false

[dependencies]
chrono = { version = "0.4", default-features = false, features = ["clock"] }
clap = { version = "4", features = ["string"] }
crossterm = "0.27"
ctrlc = "3"
reqwest = { version = "0.11", default-features = false, features = ["blocking", "json", "rustls-tls"] }
