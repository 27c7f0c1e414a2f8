[package]
name = "column_rs"
version = "0.20.1"
edition = "2021"
publish = false

[dependencies]
itoa = "=1.0.18"
ryu = "=1.0.23"
