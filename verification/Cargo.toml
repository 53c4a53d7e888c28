[package]
name = "spin-cors-router-middleware"
version = "0.1.0"
edition = "2021"
publish = false

[dependencies]
async-trait = "0.1"
http = "1"
spin-sdk = "3"
task-local-extensions = "0.1"
