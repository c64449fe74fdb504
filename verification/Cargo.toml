[package]
name = "cw20-ics20"
version = "0.1.0"
edition = "2021"
publish = false

[dependencies]
cosmwasm-std = { version = "=1.5.11", features = ["stargate"] }
cosmos-sdk-proto = { version = "=0.26.1", default-features = false }
prost = "=0.13.5"
prost-types = "=0.13.5"
sha2 = "=0.10.9"
hex = "=0.4.3"
hex-literal = "=0.4.1"
subtle-encoding = { version = "=0.5.1", features = ["bech32-preview"] }
serde = { version = "=1.0.229", features = ["derive"] }
schemars = "=0.8.22"
thiserror = "=1.0.69"
eyre = "=0.6.14"
cw0 = "=0.10.3"
cw2 = "=1.1.2"
cw20 = "=1.1.2"
