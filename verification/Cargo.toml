[package]
name = "roxide"
version = "0.1.0"
edition = "2021"
publish = false

[dependencies]
proc-macro2 = "1"
quote = "1"
syn = { version = "1", features = ["full"] }
darling = "0.14"
serde = { version = "1", features = ["derive"] }
lerp = "0.4"
lazy_static = "1"
color-eyre = "0.5"
gtk = "0.9"
