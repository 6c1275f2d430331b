[package]
name = "nocta_core"
version = "0.1.0"
edition = "2021"
publish = false

[dependencies]
anyhow = "1"
base64 = "0.22"
clap = { version = "4", features = ["derive", "env"] }
crc32fast = "1"
dialoguer = "0.11"
directories = "5"
futures = "0.3"
indicatif = "0.17"
once_cell = "1"
owo-colors = "4"
pathdiff = "0.2"
regex = "1"
reqwest = { version = "0.12", default-features = false, features = ["rustls-tls"] }
semver = "1"
serde = { version = "1", features = ["derive"] }
serde_json = "1"
tempfile = "3"
thiserror = "1"
tokio = { version = "1", features = ["macros", "rt-multi-thread"] }
