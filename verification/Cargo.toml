[package]
name = "pallet_evm"
version = "0.1.0"
edition = "2021"
publish = false

[dependencies]
evm = { version = "=0.17.3", default-features = false, features = ["std"] }
sha3 = "=0.8.2"
sp-core = "=2.0.1"
sp-runtime = "=2.0.1"
sp-io = "=2.0.1"
sp-std = "=2.0.1"
frame-support = "=2.0.1"
frame-system = "=2.0.1"
pallet-timestamp = "=2.0.1"
parity-scale-codec = { version = "=1.3.7", features = ["derive"] }
serde = { version = "1.0", features = ["derive"] }
# Not used here: held at versions that sp-core and frame-support build with.
substrate-bip39 = "=0.4.2"
syn = "=1.0.58"
