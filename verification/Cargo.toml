[package]
name = "tcp_optimiser"
version = "3.0.0"
edition = "2021"
publish = false

[dependencies]
serde = { version = "1", features = ["derive"] }
serde_json = "1"
sha2 = "0.10"
ed25519-dalek = "2"
libc = "0.2"
clap = { version = "4", features = ["derive"] }
