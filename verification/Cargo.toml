[package]
name = "fortis_ledgers"
version = "0.1.0"
edition = "2021"
publish = false

[dependencies]
cosmwasm-std = "1"
cosmwasm-schema = "1"
cw2 = "1"
cw20 = "1"
cw20-base = "1"
cw-storage-plus = "1"
cw-utils = "1"
schemars = "0.8"
serde = "1"
thiserror = "1"
