[package]
name = "ssh_colony"
version = "0.1.0"
edition = "2021"
publish = false

[dependencies]
x25519-dalek = "2.0.1"
rand_core = { version = "0.6", features = ["getrandom"] }
serde = { version = "1.0.224", features = ["derive"] }
ron = "0.11.0"
bincode = { version = "2.0.1", features = ["serde"] }
mlua = { version = "0.10", features = ["lua54", "vendored"] }
