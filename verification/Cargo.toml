[package]
name = "tari_rpc"
version = "0.1.0"
edition = "2021"
publish = false

[dependencies]
async-trait = "0.1"
bytes = "0.5"
futures = "0.3"
log = "0.4"
prost = "0.6"
serde = { version = "1", features = ["derive"] }
strum = "0.20"
strum_macros = "0.20"
