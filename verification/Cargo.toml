[package]
name = "cmdcore"
version = "0.1.0"
edition = "2021"
publish = false

[dependencies]
chrono = "*"
clap = { version = "4", features = ["derive"] }
dotenvy = "*"
rust-argon2 = "*"
sha256 = "*"
slugify = "*"
ulid = "*"
url = "*"
zxcvbn = "2"
