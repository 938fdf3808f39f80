[package]
name = "blent_host"
version = "0.1.0"
edition = "2021"
publish = false

[dependencies]
simd-adler32 = "=0.3.10"
serde = { version = "=1.0.229", features = ["derive"] }
toml = "=1.1.8"
tempfile = "=3.27.0"
