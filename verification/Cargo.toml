[package]
name = "proto_textfmt"
version = "0.1.0"
edition = "2021"
publish = false

[dependencies]
prost = { version = "*", default-features = false, features = ["std"] }
prost-types = { version = "*", default-features = false, features = ["std"] }
