[package]
name = "squads_cli"
version = "0.1.0"
edition = "2021"
publish = false

[dependencies]
solana-program = "=1.18.26"
solana-sdk = "=1.18.26"
clap = { version = "=4.5.61", features = ["derive"] }
ureq = { version = "2", default-features = false }
serde_json = "1"
bincode = "=1.3.3"
base64 = "=0.21.7"
