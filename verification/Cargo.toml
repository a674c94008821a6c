[package]
name = "fuel_vm_core"
version = "0.1.0"
edition = "2021"
publish = false

[dependencies]
itertools = "0.10"
k256 = "0.13"
serde = { version = "1", features = ["derive"] }
serde_json = "1"
sha2 = "0.10"
