[package]
name = "apdu_dispatch"
version = "0.1.0"
edition = "2021"

[dependencies]
interchange = "=0.3.3"
