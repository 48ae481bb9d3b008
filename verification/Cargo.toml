[package]
name = "flac_builder"
version = "0.1.0"
edition = "2021"
publish = false

[dependencies]
libflac-sys = { version = "=0.3.4", default-features = false }
