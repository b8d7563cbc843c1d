[package]
name = "cw721_album"
version = "0.1.0"
edition = "2021"
publish = false

[dependencies]
cosmwasm-std = "1.5"
cosmwasm-schema = "1.5"
cw721 = "0.18"
cw721-base = { version = "0.18", features = ["library"] }
cw-ownable = "0.5"
cw-utils = "1.0"
