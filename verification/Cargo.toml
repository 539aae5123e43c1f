[package]
name = "dsu"
version = "0.1.0"
edition = "2021"
publish = false

[dependencies]
zip = { version = "=8.6.0", default-features = false, features = ["deflate"] }
flate2 = "=1.1.10"
tar = "=0.4.46"
sevenz-rust2 = "*"
version-compare = "=0.2.1"
unrar = "=0.5.8"
clap = { version = "=4.6.7", features = ["derive"] }
dialoguer = "=0.12.0"
chrono = "=0.4.45"
copypasta = "=0.10.2"
reqwest = { version = "=0.13.5", default-features = false, features = ["blocking"] }
color-eyre = "=0.6.5"
