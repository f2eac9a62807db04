[package]
name = "wen_restart"
version = "0.1.0"
edition = "2021"
publish = false

[dependencies]
anyhow = "=1.0.104"
log = "=0.4.34"
prost = "=0.14.4"
rayon = "=1.12.0"
solana-clock = "=4.0.0"
solana-epoch-schedule = "=3.4.0"
solana-hard-forks = "=3.3.0"
solana-hash = { version = "=4.7.0", features = ["copy", "decode"] }
solana-pubkey = "=4.4.0"
solana-sbpf = "=0.26.0"
solana-sha256-hasher = { version = "=3.1.0", features = ["sha2"] }
solana-shred-version = "=3.0.1"
solana-time-utils = "=3.0.0"
