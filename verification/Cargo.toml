[package]
name = "cfix"
version = "0.1.0"
edition = "2021"
publish = false

[dependencies]
chrono = "0.4"
uuid = { version = "1", features = ["v4"] }
async-std = "1"
async-trait = "0.1"
log = "0.4"
nanoid = "0.4"
thiserror = "1"
serde = { version = "1", features = ["derive"] }
