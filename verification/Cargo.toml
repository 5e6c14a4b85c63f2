[package]
name = "timestampvm"
version = "0.1.0"
edition = "2021"
publish = false

[dependencies]
avalanche-types = { version = "=0.1.5", features = ["subnet"] }
base64 = "=0.21.7"
bincode = "=1.3.3"
bytes = "1"
chrono = "0.4"
log = "0.4"
pickledb = "=0.5.1"
semver = "=1.0.28"
serde = { version = "1", features = ["derive"] }
serde_json = "1"
solana-account = { version = "=2.2.1", features = ["serde"] }
solana-fee-structure = "=2.3.0"
solana-loader-v3-interface = { version = "=3.0.0", features = ["serde"] }
solana-pubkey = { version = "=2.4.0", features = ["curve25519", "serde"] }
solana-sdk-ids = "=2.2.1"
tokio = { version = "1", features = ["sync", "rt"] }
tonic = "0.11"
