[package]
name = "matrix_endpoint"
version = "0.1.0"
edition = "2021"
publish = false

[dependencies]
ruma-common = "=0.20.0"
http = "=1.5.0"
