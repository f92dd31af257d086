[package]
name = "wolf"
version = "0.1.0"
edition = "2021"
publish = false

[dependencies]
cranelift = { version = "0.128", features = ["module", "native", "object"] }
pest = "=2.9.4"
pest_derive = "=2.9.4"
