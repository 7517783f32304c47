[package]
name = "mdsight"
version = "0.1.0"
edition = "2021"
publish = false

[dependencies]
comrak = { version = "*", default-features = false }
yaml-rust2 = "*"
percent-encoding = "*"
serde = { version = "*", features = ["derive"] }
nvim-rs = { version = "*", features = ["use_tokio"] }
tokio = { version = "*", features = ["full"] }
async-trait = "*"
notify = "*"
libc = "*"
