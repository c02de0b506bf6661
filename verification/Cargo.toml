[package]
name = "wyag"
version = "0.1.0"
edition = "2021"
publish = false

[dependencies]
clap = "*"
miniz_oxide = "*"
rust-ini = "*"
sha1_smol = "*"
snafu = "*"
