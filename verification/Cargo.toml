[package]
name = "mc_protocol"
version = "0.1.0"
edition = "2021"

[dependencies]
json = "0.12"
quartz_nbt = "0.2"
serde = { version = "1", features = ["derive"] }
toml = "0.8"
