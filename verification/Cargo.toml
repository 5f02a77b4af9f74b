[package]
name = "ld_binning"
version = "0.1.0"
edition = "2021"
publish = false

[dependencies]
anyhow = "1"
clap = { version = "4", features = ["derive"] }
indicatif = "0.17"
rand = "0.9"
rand_chacha = "0.9"
rust-htslib = { version = "*", default-features = false }
