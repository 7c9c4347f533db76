[package]
name = "e9571_json_lib"
version = "0.1.0"
edition = "2021"
publish = false

[dependencies]
e9571_lib1 = "*"
serde_json = "1"
