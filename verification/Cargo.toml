[package]
name = "f1r3fly_client"
version = "0.2.0"
edition = "2021"
publish = false

[dependencies]
blake2 = "0.10"
f1r3fly-models = "0.1.0"
hex = "0.4"
k256 = { version = "0.13", features = ["ecdsa"] }
prost = "0.13"
reqwest = { version = "0.12", default-features = false, features = ["json", "charset"] }
serde = { version = "1", features = ["derive"] }
serde_json = "1"
tokio = { version = "1", features = ["time"] }
typenum = "1"
