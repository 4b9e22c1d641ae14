[package]
name = "clean_dowman"
version = "0.1.0"
edition = "2021"
publish = false

[dependencies]
serde = { version = "1", features = ["derive"] }
serde_json = "1"
reqwest = { version = "0.12", default-features = false, features = ["blocking", "rustls-tls"] }
chrono = "0.4"
clap = { version = "4", features = ["derive"] }
thiserror = "*"
log = "0.4"
winreg = "*"
