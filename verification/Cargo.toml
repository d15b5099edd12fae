[package]
name = "tos_tck"
version = "0.1.0"
edition = "2021"
publish = false

[dependencies]
hex = "0.4"
primitive-types = "0.12"
serde = { version = "1", features = ["derive"] }
serde_yaml = "0.9"
sha2 = "0.10"
tokio = { version = "1", features = ["rt-multi-thread", "macros", "time"] }
