[package]
name = "cargo_prod"
version = "0.1.0"
edition = "2021"
publish = false

[dependencies]
platforms = "3"
clap = { version = "3.1", features = ["derive"] }
colored = "2"
anyhow = "1"
cargo-deb = "1"
cargo_toml = "0.14"
fs_extra = "1"
rayon = "1"
serde = { version = "1", features = ["derive"] }
toml = "0.5"
