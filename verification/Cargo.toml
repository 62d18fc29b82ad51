[package]
name = "fanboi"
version = "1.0.0"
edition = "2021"
publish = false

[dependencies]
clap = "=2.34.0"

[dev-dependencies]
pid = "=4.0.0"
