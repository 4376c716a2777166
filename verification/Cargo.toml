[package]
name = "harvester"
version = "0.1.0"
edition = "2021"
publish = false

[dependencies]
async-trait = "0.1"
futures = "0.3"
futures-timer = "3"
log = "0.4"
thiserror = "1"
parity-scale-codec = { version = "3", features = ["derive"] }
frame-metadata = "=15.0.0"
scale-info = "2"
sp-api = "27"
sp-arithmetic = "24"
sp-blockchain = "29"
sp-core = "29"
sp-runtime = "32"
sp-storage = "20"
sp-version = "30"
