[package]
name = "envio"
version = "0.1.0"
edition = "2021"
publish = false

[dependencies]
argon2 = "0.5"
base64 = "0.22"
chacha20poly1305 = { version = "0.10", features = ["stream"] }
zeroize = "1"
serde = { version = "1", features = ["derive"] }
serde_json = "1"
clap = { version = "4", features = ["derive"] }
semver = "1"
chrono = { version = "0.4", features = ["serde"] }
dirs = "*"
postcard = { version = "1", features = ["alloc"] }
tokio = { version = "1", features = ["rt"] }
reqwest = { version = "*", default-features = false, features = ["json"] }
indicatif = "*"
ratatui = "*"
strum = "*"
strum_macros = "*"
