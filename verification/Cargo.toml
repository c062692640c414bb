[package]
name = "factory_archive"
version = "0.1.0"
edition = "2021"
publish = false

[dependencies]
byteorder = "1"
nom = { version = "5", default-features = false, features = ["std"] }
