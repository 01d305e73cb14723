[package]
name = "envelope_gen"
version = "0.1.0"
edition = "2021"
publish = false

[dependencies]

[dev-dependencies]
serde_json = "1"
syn = { version = "2", features = ["full"] }
