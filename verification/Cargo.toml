[package]
name = "uci_engine_template"
version = "1.0.0"
edition = "2021"
publish = false

[dependencies]
cozy-chess = "0.3"
rand = "0.8"
