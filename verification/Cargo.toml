[package]
name = "graphshell_registries"
version = "0.1.0"
edition = "2021"
publish = false

[dependencies]
mime_guess = "=2.0.5"
serde_json = "=1.0.154"
sha2 = "=0.10.9"
secp256k1 = { version = "=0.31.1", features = ["rand"] }
ed25519-dalek = "=2.2.0"
rand = "=0.9.5"
dirs = "=6.0.0"
url = "=2.5.8"
nostr = { version = "=0.45.6", features = ["nip44", "os-rng"] }
tokio = { version = "1", features = ["rt", "net", "time"] }
tokio-tungstenite = "*"
futures-util = "0.3"
