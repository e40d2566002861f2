[package]
name = "hyperx"
version = "0.1.0"
edition = "2021"
publish = false

[dependencies]
darling = "0.9"
proc-macro2 = "0.4"
quote = "0.6"
reqwest = { version = "0.9", default-features = false }
syn = { version = "0.15", features = ["full"] }
