[package]
name = "boba"
version = "0.1.0"
edition = "2021"
publish = false

[dependencies]
dashu = "=0.6.2"
ariadne = "=0.6.0"
logos = "=0.16.1"
derive_more = { version = "=2.1.1", features = ["display"] }
