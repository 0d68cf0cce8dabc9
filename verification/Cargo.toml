[package]
name = "hypersynthetic"
version = "0.1.0"
edition = "2021"
publish = false

[dependencies]
htmlize = "1"
proc-macro2 = { version = "1", features = ["span-locations"] }
syn = { version = "2", features = ["full"] }
quote = "1"
typed-builder = "*"
typed-builder-macro = "*"
axum = { version = "*", default-features = false }
rocket = { version = "*", default-features = false }
